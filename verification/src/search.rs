use vstd::prelude::*;

use crate::error::ScrapeError;
use crate::pattern::{
    column, group, group_column, lemma_column_per_match, regex_captures, regex_compiles, Pattern,
};
use crate::text::{replace_all, replaced};

verus! {

/// The address of the site's search page for `query`.
pub open spec fn search_address(query: Seq<char>) -> Seq<char> {
    "https://monoschinos2.com/buscar?q="@ + query
}

/// The search for `query`: the address of the site's search page for it (the
/// query is put in the address as it is). Fetching that address gives the
/// page that `query_results` reads.
pub fn search_query(query: String) -> (res: String)
    ensures
        res@ == search_address(query@),
{
    let mut url = String::from_str("https://monoschinos2.com/buscar?q=");
    url.append(query.as_str());
    url
}

/// The pattern that finds the title of each series in a search page.
pub open spec fn title_pattern() -> Seq<char> {
    "(<h3 class=\"seristitles\">)(.*)(</h3)"@
}

/// The pattern that finds the category and year of each series in a search page.
pub open spec fn category_pattern() -> Seq<char> {
    "(<span class=\"seriesinfo\">)(.*)(</span)"@
}

/// The pattern that finds the address of each series in a search page.
pub open spec fn link_pattern() -> Seq<char> {
    "(<div class=\"col-md-4 col-lg-2 col-6\">\n<a href=\")(.*)(\">)"@
}

/// A title with the two HTML entities that the site uses in titles written out.
pub open spec fn unescaped(title: Seq<char>) -> Seq<char> {
    replaced(replaced(title, "&#039;"@, "'"@), "&amp;"@, "&"@)
}

/// Writes out the HTML entities `&#039;` and `&amp;` of a title.
pub fn unescape_title(title: &str) -> (res: String)
    ensures
        res@ == unescaped(title@),
{
    proof {
        reveal_strlit("&#039;");
        reveal_strlit("&amp;");
    }
    let once = replace_all(title, "&#039;", "'");
    replace_all(once.as_str(), "&amp;", "&")
}

/// What `query_results` makes of a search page: the titles (entities written
/// out), the categories and the addresses of the series found, each list in
/// page order.
pub open spec fn search_results(source: Seq<char>) -> Result<Seq<Seq<Seq<char>>>, ScrapeError> {
    if !regex_compiles(title_pattern()) || !regex_compiles(category_pattern())
        || !regex_compiles(link_pattern()) {
        Err(ScrapeError::Pattern)
    } else {
        match (
            column(regex_captures(title_pattern(), source), 2),
            column(regex_captures(category_pattern(), source), 2),
            column(regex_captures(link_pattern(), source), 2),
        ) {
            (Some(titles), Some(categories), Some(links)) => Ok(
                seq![titles.map_values(|t: Seq<char>| unescaped(t)), categories, links],
            ),
            _ => Err(ScrapeError::MissingGroup),
        }
    }
}

/// Reads a search page into three lists: titles, categories and addresses.
pub fn query_results(source: String) -> (res: Result<Vec<Vec<String>>, ScrapeError>)
    ensures
        match res {
            Ok(lists) => search_results(source@) == Ok::<_, ScrapeError>(lists.deep_view()),
            Err(e) => search_results(source@) == Err::<Seq<Seq<Seq<char>>>, _>(e),
        },
{
    let get_titles = match Pattern::compile("(<h3 class=\"seristitles\">)(.*)(</h3)") {
        Ok(p) => p,
        Err(_) => return Err(ScrapeError::Pattern),
    };
    let get_categories = match Pattern::compile("(<span class=\"seriesinfo\">)(.*)(</span)") {
        Ok(p) => p,
        Err(_) => return Err(ScrapeError::Pattern),
    };
    let get_links = match Pattern::compile(
        "(<div class=\"col-md-4 col-lg-2 col-6\">\n<a href=\")(.*)(\">)",
    ) {
        Ok(p) => p,
        Err(_) => return Err(ScrapeError::Pattern),
    };
    let raw_titles = match group_column(&get_titles.captures_all(source.as_str()), 2) {
        Some(t) => t,
        None => return Err(ScrapeError::MissingGroup),
    };
    let categories = match group_column(&get_categories.captures_all(source.as_str()), 2) {
        Some(c) => c,
        None => return Err(ScrapeError::MissingGroup),
    };
    let links = match group_column(&get_links.captures_all(source.as_str()), 2) {
        Some(l) => l,
        None => return Err(ScrapeError::MissingGroup),
    };
    let mut titles: Vec<String> = Vec::new();
    let mut i: usize = 0;
    while i < raw_titles.len()
        invariant
            i <= raw_titles.len(),
            titles.deep_view() == raw_titles.deep_view().take(i as int).map_values(
                |t: Seq<char>| unescaped(t),
            ),
        decreases raw_titles.len() - i,
    {
        let t = unescape_title(raw_titles[i].as_str());
        let ghost prev = titles.deep_view();
        let ghost tv = t@;
        titles.push(t);
        assert(titles.deep_view() =~= prev.push(tv));
        assert(raw_titles.deep_view().take(i + 1).drop_last() =~= raw_titles.deep_view().take(
            i as int,
        ));
        i += 1;
        assert(titles.deep_view() =~= raw_titles.deep_view().take(i as int).map_values(
            |t: Seq<char>| unescaped(t),
        ));
    }
    assert(raw_titles.deep_view().take(raw_titles.len() as int) =~= raw_titles.deep_view());
    let res = vec![titles, categories, links];
    assert(res.deep_view() =~= seq![
        raw_titles.deep_view().map_values(|t: Seq<char>| unescaped(t)),
        categories.deep_view(),
        links.deep_view(),
    ]);
    Ok(res)
}

/// The search address is the site's fixed search prefix followed by the
/// query's characters, every one of them kept and in order.
pub proof fn lemma_search_address_keeps_query(query: Seq<char>)
    ensures
        search_address(query).len() == 34 + query.len(),
        search_address(query).take(34) == "https://monoschinos2.com/buscar?q="@,
        forall|i: int| 0 <= i < query.len() ==> #[trigger] search_address(query)[34 + i] == query[i],
{
    reveal_strlit("https://monoschinos2.com/buscar?q=");
    assert(search_address(query).take(34) =~= "https://monoschinos2.com/buscar?q="@);
}

/// Reading a search page keeps one title per match of the title pattern, in
/// page order, each the match's text with its entities written out; and one
/// category and one address per match of their patterns likewise. Reading
/// succeeds whenever the three patterns compile and every match has its text.
pub proof fn lemma_search_results_per_match(source: Seq<char>)
    ensures
        search_results(source) matches Ok(lists) ==> {
            let t = regex_captures(title_pattern(), source);
            let c = regex_captures(category_pattern(), source);
            let l = regex_captures(link_pattern(), source);
            &&& lists.len() == 3
            &&& lists[0].len() == t.len()
            &&& lists[1].len() == c.len()
            &&& lists[2].len() == l.len()
            &&& forall|k: int|
                0 <= k < t.len() ==> (group(#[trigger] t[k], 2) matches Some(raw) && lists[0][k]
                    == unescaped(raw))
            &&& forall|k: int| 0 <= k < c.len() ==> group(#[trigger] c[k], 2) == Some(lists[1][k])
            &&& forall|k: int| 0 <= k < l.len() ==> group(#[trigger] l[k], 2) == Some(lists[2][k])
        },
        ({
            let t = regex_captures(title_pattern(), source);
            let c = regex_captures(category_pattern(), source);
            let l = regex_captures(link_pattern(), source);
            regex_compiles(title_pattern()) && regex_compiles(category_pattern())
                && regex_compiles(link_pattern()) && (forall|k: int|
                0 <= k < t.len() ==> group(#[trigger] t[k], 2) is Some) && (forall|k: int|
                0 <= k < c.len() ==> group(#[trigger] c[k], 2) is Some) && (forall|k: int|
                0 <= k < l.len() ==> group(#[trigger] l[k], 2) is Some)
        }) ==> search_results(source) is Ok,
{
    let t = regex_captures(title_pattern(), source);
    let c = regex_captures(category_pattern(), source);
    let l = regex_captures(link_pattern(), source);
    lemma_column_per_match(t, 2);
    lemma_column_per_match(c, 2);
    lemma_column_per_match(l, 2);
}

} // verus!
