use anicli_es::error::ScrapeError;
use anicli_es::player::getargs;
use anicli_es::servers::{
    fetch_for, player_addresses, player_lists, player_request, server_address, server_in_position,
    server_list, Fetch, Request, Server,
};

const PUJ: &str = "aHR0cHM6Ly9tb25vc2NoaW5vczIuY29tL3JlcHJvZHVjdG9yP3VybD1odHRwczovL3JlcHJvLm1vbm9zY2hpbm9zMi5jb20vYXF1YS9hbT91cmw9";
const ZEUS: &str = "aHR0cHM6Ly9tb25vc2NoaW5vczIuY29tL3JlcHJvZHVjdG9yP3VybD1odHRwczovL3d3dy5zb2xpZGZpbGVzLmNvbS9l";
const UQLOAD: &str = "aHR0cHM6Ly9tb25vc2NoaW5vczIuY29tL3JlcHJvZHVjdG9yP3VybD1odHRwczovL3VxbG9hZC5jb20v";

fn strings(items: &[&str]) -> Vec<String> {
    items.iter().map(|s| s.to_string()).collect()
}

fn episode_page() -> String {
    format!(
        "<ul>\n<li><a href=\"{}aGVsbG8=\">puj</a></li>\n<li><a href=\"{}L2Fi\">zeus</a></li>\n<li><a href=\"{}ZS92\">uqload</a></li>\n</ul>",
        PUJ, ZEUS, UQLOAD
    )
}

#[test]
fn servers_in_order() {
    assert_eq!(server_in_position(0), Server::Zeus);
    assert_eq!(server_in_position(1), Server::Uqload);
    assert_eq!(server_in_position(2), Server::Videobin);
    assert_eq!(server_in_position(3), Server::Puj);
    assert_eq!(server_in_position(4), Server::Fembed);
    assert_eq!(fetch_for(Server::Puj), Fetch::Nothing);
    assert_eq!(fetch_for(Server::Fembed), Fetch::Post);
    assert_eq!(fetch_for(Server::Zeus), Fetch::Get);
}

#[test]
fn server_address_decodes_links() {
    let page = episode_page();
    assert_eq!(server_address(&page, Server::Puj), Ok(Some("hello".to_string())));
    assert_eq!(
        server_address(&page, Server::Zeus),
        Ok(Some("https://www.solidfiles.com/e/ab".to_string()))
    );
    assert_eq!(server_address(&page, Server::Uqload), Ok(Some("https://uqload.com/e/v".to_string())));
    assert_eq!(server_address(&page, Server::Fembed), Ok(None));
    assert_eq!(server_address(&page, Server::Videobin), Ok(None));
}

#[test]
fn server_address_refuses_bad_base64() {
    let page = format!("<li><a href=\"{}%%%\">puj</a></li>", PUJ);
    assert_eq!(server_address(&page, Server::Puj), Err(ScrapeError::Base64));
}

#[test]
fn server_lists_per_server() {
    assert_eq!(server_list(Server::Zeus, &None, ""), Ok(strings(&["0"])));
    assert_eq!(server_list(Server::Uqload, &None, ""), Ok(strings(&["1"])));
    assert_eq!(
        server_list(Server::Puj, &Some("https://v.mp4".to_string()), ""),
        Ok(strings(&["0", "https://v.mp4"]))
    );
    assert_eq!(
        server_list(
            Server::Zeus,
            &Some("https://www.solidfiles.com/e/ab".to_string()),
            "{\"streamUrl\":\"https://s.mp4\",\"nodeName\":\"n\"}"
        ),
        Ok(strings(&["0", "https://s.mp4"]))
    );
    assert_eq!(
        server_list(Server::Zeus, &Some("https://www.solidfiles.com/e/ab".to_string()), "nada"),
        Ok(strings(&["0"]))
    );
    assert_eq!(
        server_list(
            Server::Fembed,
            &Some("https://fembed-hd.com/api/source/x".to_string()),
            "[{\"file\":\"x\"},{\"file\":\"https:\\/\\/fvs.io\\/redirector?t=1\",\"label\":\"720p\"}]}"
        ),
        Ok(strings(&["0", "https://fvs.io/redirector?t=1"]))
    );
    assert_eq!(
        server_list(
            Server::Uqload,
            &Some("https://uqload.com/e/v".to_string()),
            "sources: [\"https://u.mp4\"],"
        ),
        Ok(strings(&["1", "https://uqload.com/e/v", "https://u.mp4"]))
    );
    assert_eq!(
        server_list(
            Server::Videobin,
            &Some("https://videobin.co/x".to_string()),
            "sources: [\"https://a.m3u8\",\"https://b.mp4\"]"
        ),
        Ok(strings(&["1", "https://videobin.co/x", "https://b.mp4"]))
    );
    assert_eq!(
        server_list(Server::Videobin, &Some("https://videobin.co/x".to_string()), ""),
        Ok(strings(&["1", "https://videobin.co/x"]))
    );
}

#[test]
fn getargs_plays_first_usable_list() {
    let lists = vec![
        strings(&["0"]),
        strings(&["0", "https://s.mp4"]),
        strings(&["0"]),
        strings(&["1", "https://videobin.co/x", "https://b.mp4"]),
        strings(&["1"]),
    ];
    assert_eq!(getargs(lists), "setsid -f mpv --really-quiet \"https://s.mp4\"");
}

#[test]
fn getargs_sends_referer() {
    let lists = vec![
        strings(&["0"]),
        strings(&["0"]),
        strings(&["0"]),
        strings(&["1", "https://videobin.co/x"]),
        strings(&["1", "https://uqload.com/e/v", "https://u.mp4"]),
    ];
    assert_eq!(
        getargs(lists),
        "setsid -f mpv --really-quiet --http-header-fields=\"Referer:https://uqload.com/e/v\" \"https://u.mp4\""
    );
}

#[test]
fn getargs_without_usable_list_is_empty() {
    let lists = vec![strings(&["0"]), strings(&["0"]), strings(&["0"]), strings(&["1"]), strings(&["1"])];
    assert_eq!(getargs(lists), "");
    assert_eq!(getargs(vec![]), "");
}

#[test]
fn requests_follow_the_addresses_read() {
    let page = episode_page();
    let addresses = player_addresses(&page).unwrap();
    assert_eq!(
        addresses,
        vec![
            Some("https://www.solidfiles.com/e/ab".to_string()),
            Some("https://uqload.com/e/v".to_string()),
            None,
            Some("hello".to_string()),
            None,
        ]
    );
    let requests: Vec<Request> =
        (0..5).map(|i| player_request(server_in_position(i), &addresses[i])).collect();
    assert_eq!(
        requests,
        vec![
            Request::Get("https://www.solidfiles.com/e/ab".to_string()),
            Request::Get("https://uqload.com/e/v".to_string()),
            Request::Nothing,
            Request::Nothing,
            Request::Nothing,
        ]
    );
    assert_eq!(
        player_request(Server::Fembed, &Some("https://fembed-hd.com/api/source/x".to_string())),
        Request::Post("https://fembed-hd.com/api/source/x".to_string())
    );
}

#[test]
fn player_addresses_report_bad_base64() {
    let page = format!("<li><a href=\"{}%%%\">puj</a></li>", PUJ);
    assert_eq!(player_addresses(&page), Err(ScrapeError::Base64));
}

#[test]
fn lists_follow_the_replies() {
    let page = episode_page();
    let addresses = player_addresses(&page).unwrap();
    let replies = strings(&[
        "{\"streamUrl\":\"https://s.mp4\",\"nodeName\":\"n\"}",
        "sources: [\"https://u.mp4\"],",
        "",
        "",
        "",
    ]);
    let lists = player_lists(&addresses, &replies).unwrap();
    assert_eq!(
        lists,
        vec![
            strings(&["0", "https://s.mp4"]),
            strings(&["1", "https://uqload.com/e/v", "https://u.mp4"]),
            strings(&["1"]),
            strings(&["0", "hello"]),
            strings(&["0"]),
        ]
    );
    assert_eq!(getargs(lists), "setsid -f mpv --really-quiet \"https://s.mp4\"");
}

#[test]
fn lists_from_servers_are_always_readable_by_getargs() {
    let page = episode_page();
    let addresses = player_addresses(&page).unwrap();
    let lists = player_lists(&addresses, &strings(&["", "", "", "", ""])).unwrap();
    for (i, list) in lists.iter().enumerate() {
        assert!(!list.is_empty());
        assert_eq!(list[0], if i == 1 || i == 2 { "1" } else { "0" });
    }
    assert_eq!(getargs(lists), "setsid -f mpv --really-quiet \"hello\"");
}
