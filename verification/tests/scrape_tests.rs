use anicli_es::codec::{decode_base64, try_decode_base64};
use anicli_es::episodes::{episode_links, episodes_of_page};
use anicli_es::error::ScrapeError;
use anicli_es::pattern::{group_column, group_text};
use anicli_es::search::{query_results, search_query, unescape_title};

fn m(groups: &[Option<&str>]) -> Vec<Option<String>> {
    groups.iter().map(|g| g.map(|s| s.to_string())).collect()
}

fn episode(number: &str, link: &str) -> Vec<Option<String>> {
    m(&[Some("whole"), Some("head"), Some(number), Some("mid"), Some(link), Some("tail")])
}

#[test]
fn decode_base64_reads_text() {
    assert_eq!(decode_base64("aGVsbG8=".to_string()), "hello");
    assert_eq!(decode_base64("".to_string()), "");
}

#[test]
fn try_decode_base64_refuses_bad_input() {
    assert_eq!(try_decode_base64("aGVsbG8="), Some("hello".to_string()));
    assert_eq!(try_decode_base64("!!!!"), None);
    assert_eq!(try_decode_base64("/w=="), None);
}

#[test]
fn group_text_and_column() {
    let found = vec![
        m(&[Some("a"), Some("a"), None]),
        m(&[Some("ab"), Some("a"), Some("b")]),
    ];
    assert_eq!(group_text(&found[0], 2), None);
    assert_eq!(group_text(&found[1], 2), Some("b".to_string()));
    assert_eq!(group_text(&found[1], 7), None);
    assert_eq!(group_column(&found, 1), Some(vec!["a".to_string(), "a".to_string()]));
    assert_eq!(group_column(&found, 2), None);
    assert_eq!(group_column(&vec![], 3), Some(vec![]));
}

#[test]
fn search_query_appends_query() {
    assert_eq!(search_query("naruto".to_string()), "https://monoschinos2.com/buscar?q=naruto");
    assert_eq!(search_query("".to_string()), "https://monoschinos2.com/buscar?q=");
}

#[test]
fn unescape_title_writes_out_entities() {
    assert_eq!(unescape_title("JoJo&#039;s &amp; Co"), "JoJo's & Co");
    assert_eq!(unescape_title("&amp;#039;"), "&#039;");
}

#[test]
fn query_results_reads_titles_categories_and_links() {
    let page = [
        "<div class=\"col-md-4 col-lg-2 col-6\">\n<a href=\"https://monoschinos2.com/anime/a\">\n",
        "<h3 class=\"seristitles\">Kaguya&#039;s Love &amp; War</h3>\n",
        "<span class=\"seriesinfo\">Anime 2019</span>\n",
        "<div class=\"col-md-4 col-lg-2 col-6\">\n<a href=\"https://monoschinos2.com/anime/b\">\n",
        "<h3 class=\"seristitles\">Bleach</h3>\n",
        "<span class=\"seriesinfo\">Anime 2004</span>\n",
    ]
    .concat();
    let lists = query_results(page.clone()).unwrap();
    assert_eq!(
        lists,
        vec![
            vec!["Kaguya's Love & War".to_string(), "Bleach".to_string()],
            vec!["Anime 2019".to_string(), "Anime 2004".to_string()],
            vec![
                "https://monoschinos2.com/anime/a".to_string(),
                "https://monoschinos2.com/anime/b".to_string()
            ],
        ]
    );
}

#[test]
fn query_results_of_page_without_series_is_empty() {
    let lists = query_results("<html>nada</html>".to_string()).unwrap();
    assert_eq!(lists, vec![Vec::<String>::new(), Vec::new(), Vec::new()]);
}

#[test]
fn episodes_of_page_without_episodes_is_empty() {
    assert_eq!(episodes_of_page("<html></html>"), Ok(vec![]));
}

#[test]
fn episode_links_in_order() {
    let matches = vec![episode("1", "e1"), episode("2", "e2"), episode("3", "e3")];
    assert_eq!(episode_links(&matches), Ok(vec!["e1".to_string(), "e2".to_string(), "e3".to_string()]));
}

#[test]
fn episode_links_leave_an_empty_slot_for_each_missing_episode() {
    let matches = vec![episode("1", "a"), episode("2", "b"), episode("4", "d"), episode("5", "e")];
    assert_eq!(
        episode_links(&matches),
        Ok(vec!["a".to_string(), "b".to_string(), "".to_string(), "d".to_string(), "e".to_string()])
    );
    let late_start = vec![episode("3", "c")];
    assert_eq!(
        episode_links(&late_start),
        Ok(vec!["".to_string(), "".to_string(), "c".to_string()])
    );
}

#[test]
fn series_page_with_a_missing_episode() {
    let page = [
        r#"<div class="col-item" data-episode="1">"#,
        r#"<a href="L1">"#,
        r#"<div class="col-item" data-episode="3">"#,
        r#"<a href="L3">"#,
        r#"<div class="col-item" data-episode="4">"#,
        r#"<a href="L4">"#,
    ]
    .join("\n");
    assert_eq!(
        episodes_of_page(&page),
        Ok(vec!["L1".to_string(), "".to_string(), "L3".to_string(), "L4".to_string()])
    );
}

#[test]
fn episode_links_going_back_restarts_count() {
    let matches = vec![episode("1", "a"), episode("1", "again"), episode("2", "b")];
    assert_eq!(episode_links(&matches), Ok(vec!["a".to_string(), "b".to_string()]));
}

#[test]
fn episode_links_of_no_episode_is_empty() {
    assert_eq!(episode_links(&vec![]), Ok(vec![]));
}

#[test]
fn episode_links_errors() {
    assert_eq!(episode_links(&vec![episode("uno", "a")]), Err(ScrapeError::EpisodeNumber));
    assert_eq!(episode_links(&vec![m(&[Some("x"), Some("y")])]), Err(ScrapeError::MissingGroup));
    let no_link = m(&[Some("x"), Some("y"), Some("1"), Some("z")]);
    assert_eq!(episode_links(&vec![no_link]), Err(ScrapeError::MissingGroup));
    assert_eq!(
        episode_links(&vec![episode("2147483647", "a")]),
        Err(ScrapeError::EpisodeOverflow)
    );
    assert_eq!(
        episode_links(&vec![episode("-2147483648", "a")]),
        Err(ScrapeError::EpisodeOverflow)
    );
}

#[test]
fn episode_pattern_reads_series_page() {
    let page = [
        "<div class=\"col-item\" data-episode=\"1\">\n",
        "<a href=\"https://monoschinos2.com/ver/x-episodio-1\">\n",
        "<div class=\"col-item\" data-episode=\"2\">\n",
        "<a href=\"https://monoschinos2.com/ver/x-episodio-2\">\n",
    ]
    .concat();
    let links = episodes_of_page(&page).unwrap();
    assert_eq!(
        links,
        vec![
            "https://monoschinos2.com/ver/x-episodio-1".to_string(),
            "https://monoschinos2.com/ver/x-episodio-2".to_string()
        ]
    );
}
