use vstd::prelude::*;

verus! {

#[verifier::external_type_specification]
#[verifier::external_body]
pub struct ExRegex(regex::Regex);

#[verifier::external_type_specification]
#[verifier::external_body]
pub struct ExRegexError(regex::Error);

/// Whether the `regex` crate accepts `pattern` (it refuses patterns that are
/// not valid syntax or that compile past its default size limit).
pub uninterp spec fn regex_compiles(pattern: Seq<char>) -> bool;

/// What `Regex::captures_iter` of the `regex` crate finds in `haystack`: one
/// entry per successive non-overlapping match, leftmost first, each holding
/// the text of every capture group in order (group 0 is the whole match), or
/// `None` for a group that took no part in the match. The result depends on
/// the pattern and the haystack alone.
pub uninterp spec fn regex_captures(pattern: Seq<char>, haystack: Seq<char>) -> Seq<
    Seq<Option<Seq<char>>>,
>;

/// A compiled regular expression together with the pattern it was compiled from.
pub(crate) struct Pattern {
    regex: regex::Regex,
    source: String,
}

impl Pattern {
    /// The pattern this regular expression was compiled from.
    pub(crate) closed spec fn source(&self) -> Seq<char> {
        self.source@
    }

    /// Compiles `pattern`.
    /// Trusted: `Regex::new` of the `regex` crate, which succeeds exactly on the
    /// patterns it accepts; the compiled value keeps the pattern's text.
    #[verifier::external_body]
    pub(crate) fn compile(pattern: &str) -> (res: Result<Pattern, regex::Error>)
        ensures
            res is Ok <==> regex_compiles(pattern@),
            res matches Ok(p) ==> p.source() == pattern@,
    {
        match regex::Regex::new(pattern) {
            Ok(regex) => Ok(Pattern { regex, source: pattern.to_string() }),
            Err(e) => Err(e),
        }
    }

    /// Every match in `haystack`, with the text of each of its capture groups.
    /// Trusted: `Regex::captures_iter`, `Captures::iter` and `Match::as_str` of
    /// the `regex` crate; each match is handed out as the texts of its groups.
    #[verifier::external_body]
    pub(crate) fn captures_all(&self, haystack: &str) -> (res: Vec<Vec<Option<String>>>)
        ensures
            res.deep_view() == regex_captures(self.source(), haystack@),
    {
        self.regex.captures_iter(haystack).map(
            |caps| caps.iter().map(|m| m.map(|m| m.as_str().to_string())).collect(),
        ).collect()
    }
}

/// The text of group `g` of a match, if that group took part in it.
pub open spec fn group(m: Seq<Option<Seq<char>>>, g: int) -> Option<Seq<char>> {
    if 0 <= g < m.len() {
        m[g]
    } else {
        None
    }
}

/// The text of group `g` of a match (what `Captures::get` gives).
pub fn group_text(m: &Vec<Option<String>>, g: usize) -> (res: Option<String>)
    ensures
        res.deep_view() == group(m.deep_view(), g as int),
{
    if g < m.len() {
        match &m[g] {
            Some(t) => Some(t.clone()),
            None => None,
        }
    } else {
        None
    }
}

/// The texts of group `g` of every match, in order, if the group took part in
/// all of them.
pub open spec fn column(matches: Seq<Seq<Option<Seq<char>>>>, g: int) -> Option<Seq<Seq<char>>>
    decreases matches.len(),
{
    if matches.len() == 0 {
        Some(Seq::empty())
    } else {
        match (column(matches.drop_last(), g), group(matches.last(), g)) {
            (Some(texts), Some(t)) => Some(texts.push(t)),
            _ => None,
        }
    }
}

/// The column of group `g` has one text per match, the text of that group in
/// that match, and it exists exactly when the group took part in every match.
pub proof fn lemma_column_per_match(matches: Seq<Seq<Option<Seq<char>>>>, g: int)
    ensures
        column(matches, g) matches Some(texts) ==> texts.len() == matches.len() && forall|k: int|
            0 <= k < matches.len() ==> group(#[trigger] matches[k], g) == Some(texts[k]),
        (forall|k: int| 0 <= k < matches.len() ==> group(#[trigger] matches[k], g) is Some)
            <==> column(matches, g) is Some,
    decreases matches.len(),
{
    if matches.len() > 0 {
        let prev = matches.drop_last();
        lemma_column_per_match(prev, g);
        assert forall|k: int| 0 <= k < prev.len() implies #[trigger] prev[k] == matches[k] by {}
        if forall|k: int| 0 <= k < matches.len() ==> group(#[trigger] matches[k], g) is Some {
            assert forall|k: int| 0 <= k < prev.len() implies group(#[trigger] prev[k], g) is Some by {
                assert(group(matches[k], g) is Some);
            }
            assert(group(matches[matches.len() - 1], g) is Some);
        }
        if column(matches, g) is Some {
            let before = column(prev, g)->Some_0;
            let texts = column(matches, g)->Some_0;
            assert(texts == before.push(group(matches.last(), g)->Some_0));
            assert forall|k: int| 0 <= k < matches.len() implies group(#[trigger] matches[k], g)
                == Some(texts[k]) by {
                if k < prev.len() {
                    assert(group(prev[k], g) == Some(before[k]));
                }
            }
        }
    }
}

/// The texts of group `g` of every match, in order; `None` where the group
/// took no part in one of them.
pub fn group_column(matches: &Vec<Vec<Option<String>>>, g: usize) -> (res: Option<Vec<String>>)
    ensures
        res.deep_view() == column(matches.deep_view(), g as int),
{
    let mut texts: Vec<String> = Vec::new();
    let mut i: usize = 0;
    while i < matches.len()
        invariant
            i <= matches.len(),
            column(matches.deep_view().take(i as int), g as int) == Some(texts.deep_view()),
        decreases matches.len() - i,
    {
        let ghost all = matches.deep_view();
        assert(all.take(i + 1).drop_last() =~= all.take(i as int));
        assert(all.take(i + 1).last() == all[i as int]);
        match group_text(&matches[i], g) {
            Some(t) => {
                let ghost prev = texts.deep_view();
                let ghost tv = t@;
                texts.push(t);
                assert(texts.deep_view() =~= prev.push(tv));
            },
            None => {
                assert(column(all.take(i + 1), g as int) is None);
                let mut k: usize = i + 1;
                while k < matches.len()
                    invariant
                        i < k <= matches.len(),
                        all == matches.deep_view(),
                        column(all.take(k as int), g as int) is None,
                    decreases matches.len() - k,
                {
                    assert(all.take(k + 1).drop_last() =~= all.take(k as int));
                    k += 1;
                }
                assert(all.take(matches.len() as int) =~= all);
                return None;
            },
        }
        i += 1;
    }
    assert(matches.deep_view().take(matches.len() as int) =~= matches.deep_view());
    Some(texts)
}

} // verus!
