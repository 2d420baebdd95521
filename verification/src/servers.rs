use vstd::prelude::*;

use crate::codec::{decoded_text, try_decode_base64};
use crate::error::ScrapeError;
use crate::pattern::{group, group_text, regex_captures, regex_compiles, Pattern};

verus! {

/// The video servers an episode page may link to, in the order of their
/// lists: zeus first, uqload second, videobin third, then puj and fembed.
#[derive(Debug, Clone, Copy, PartialEq, Eq, Structural)]
pub enum Server {
    Zeus,
    Uqload,
    Videobin,
    Puj,
    Fembed,
}

/// How many servers there are.
pub const SERVER_COUNT: usize = 5;

/// The server whose list stands in position `i`.
pub open spec fn server_at(i: int) -> Server {
    if i == 0 {
        Server::Zeus
    } else if i == 1 {
        Server::Uqload
    } else if i == 2 {
        Server::Videobin
    } else if i == 3 {
        Server::Puj
    } else {
        Server::Fembed
    }
}

/// The server whose list stands in position `i`.
pub fn server_in_position(i: usize) -> (s: Server)
    requires
        i < SERVER_COUNT,
    ensures
        s == server_at(i as int),
{
    if i == 0 {
        Server::Zeus
    } else if i == 1 {
        Server::Uqload
    } else if i == 2 {
        Server::Videobin
    } else if i == 3 {
        Server::Puj
    } else {
        Server::Fembed
    }
}

/// The pattern that finds a server's base64-encoded link in an episode page.
pub open spec fn server_pattern(s: Server) -> Seq<char> {
    match s {
        Server::Puj => "(aHR0cHM6Ly9tb25vc2NoaW5vczIuY29tL3JlcHJvZHVjdG9yP3VybD1odHRwczovL3JlcHJvLm1vbm9zY2hpbm9zMi5jb20vYXF1YS9hbT91cmw9)(.*)(\">puj</a></li>)"@,
        Server::Zeus => "(aHR0cHM6Ly9tb25vc2NoaW5vczIuY29tL3JlcHJvZHVjdG9yP3VybD1odHRwczovL3d3dy5zb2xpZGZpbGVzLmNvbS9l)(.*)(\">.eus</a></li>)"@,
        Server::Fembed => "(aHR0cHM6Ly9tb25vc2NoaW5vczIuY29tL3JlcHJvZHVjdG9yP3VybD1odHRwczovL3d3dy5mZW1iZWQuY29tL3Yv)(.*)(\">fembed2</a></li>)"@,
        Server::Videobin => "(aHR0cHM6Ly9tb25vc2NoaW5vczIuY29tL3JlcHJvZHVjdG9yP3VybD1odHRwczovL3ZpZGVvYmluLmNv)(.*)(\">videobin</a></li>)"@,
        Server::Uqload => "(aHR0cHM6Ly9tb25vc2NoaW5vczIuY29tL3JlcHJvZHVjdG9yP3VybD1odHRwczovL3VxbG9hZC5jb20v)(.*)(\">uqload</a></li>)"@,
    }
}

fn server_pattern_text(s: Server) -> (res: &'static str)
    ensures
        res@ == server_pattern(s),
{
    match s {
        Server::Puj => "(aHR0cHM6Ly9tb25vc2NoaW5vczIuY29tL3JlcHJvZHVjdG9yP3VybD1odHRwczovL3JlcHJvLm1vbm9zY2hpbm9zMi5jb20vYXF1YS9hbT91cmw9)(.*)(\">puj</a></li>)",
        Server::Zeus => "(aHR0cHM6Ly9tb25vc2NoaW5vczIuY29tL3JlcHJvZHVjdG9yP3VybD1odHRwczovL3d3dy5zb2xpZGZpbGVzLmNvbS9l)(.*)(\">.eus</a></li>)",
        Server::Fembed => "(aHR0cHM6Ly9tb25vc2NoaW5vczIuY29tL3JlcHJvZHVjdG9yP3VybD1odHRwczovL3d3dy5mZW1iZWQuY29tL3Yv)(.*)(\">fembed2</a></li>)",
        Server::Videobin => "(aHR0cHM6Ly9tb25vc2NoaW5vczIuY29tL3JlcHJvZHVjdG9yP3VybD1odHRwczovL3ZpZGVvYmluLmNv)(.*)(\">videobin</a></li>)",
        Server::Uqload => "(aHR0cHM6Ly9tb25vc2NoaW5vczIuY29tL3JlcHJvZHVjdG9yP3VybD1odHRwczovL3VxbG9hZC5jb20v)(.*)(\">uqload</a></li>)",
    }
}

/// What goes before a server's decoded link to make the address of its player.
pub open spec fn address_prefix(s: Server) -> Seq<char> {
    match s {
        Server::Puj => ""@,
        Server::Zeus => "https://www.solidfiles.com/e"@,
        Server::Fembed => "https://fembed-hd.com/api/source/"@,
        Server::Videobin => "https://videobin.co"@,
        Server::Uqload => "https://uqload.com/"@,
    }
}

fn address_prefix_text(s: Server) -> (res: &'static str)
    ensures
        res@ == address_prefix(s),
{
    match s {
        Server::Puj => "",
        Server::Zeus => "https://www.solidfiles.com/e",
        Server::Fembed => "https://fembed-hd.com/api/source/",
        Server::Videobin => "https://videobin.co",
        Server::Uqload => "https://uqload.com/",
    }
}

/// The pattern that finds the video file in the reply of a server's player.
pub open spec fn stream_pattern(s: Server) -> Seq<char> {
    match s {
        Server::Puj => ""@,
        Server::Zeus => "(\"streamUrl\":\")(.*)(\",\"nodeName)"@,
        Server::Fembed => "(,.\"file\":\"https:././fvs.io./)(.*)(\",\"label\":\"720p\")"@,
        Server::Videobin => "(sources: .\".*\")(.*)(\".*)"@,
        Server::Uqload => "(sources: .\")(.*)(\".)"@,
    }
}

fn stream_pattern_text(s: Server) -> (res: &'static str)
    ensures
        res@ == stream_pattern(s),
{
    match s {
        Server::Puj => "",
        Server::Zeus => "(\"streamUrl\":\")(.*)(\",\"nodeName)",
        Server::Fembed => "(,.\"file\":\"https:././fvs.io./)(.*)(\",\"label\":\"720p\")",
        Server::Videobin => "(sources: .\".*\")(.*)(\".*)",
        Server::Uqload => "(sources: .\")(.*)(\".)",
    }
}

/// What goes before the text found in a player's reply to make the video's address.
pub open spec fn stream_prefix(s: Server) -> Seq<char> {
    match s {
        Server::Fembed => "https://fvs.io/"@,
        _ => ""@,
    }
}

fn stream_prefix_text(s: Server) -> (res: &'static str)
    ensures
        res@ == stream_prefix(s),
{
    match s {
        Server::Fembed => "https://fvs.io/",
        _ => "",
    }
}

/// The first entry of a server's list: `"0"` where the video plays from its
/// address alone, `"1"` where the player's address must be sent along as referer.
pub open spec fn marker(s: Server) -> Seq<char> {
    match s {
        Server::Videobin | Server::Uqload => "1"@,
        _ => "0"@,
    }
}

fn marker_text(s: Server) -> (res: &'static str)
    ensures
        res@ == marker(s),
{
    match s {
        Server::Videobin | Server::Uqload => "1",
        _ => "0",
    }
}

/// Whether a server's list keeps the address of its player.
pub open spec fn keeps_address(s: Server) -> bool {
    s == Server::Videobin || s == Server::Uqload
}

/// How a server's player is asked for the video.
#[derive(Debug, Clone, Copy, PartialEq, Eq, Structural)]
pub enum Fetch {
    /// The decoded link is the video; nothing is asked.
    Nothing,
    /// The player's address is fetched.
    Get,
    /// An empty POST request is sent to the player's address.
    Post,
}

/// How a server's player is asked for the video.
pub open spec fn fetch_kind(s: Server) -> Fetch {
    match s {
        Server::Puj => Fetch::Nothing,
        Server::Fembed => Fetch::Post,
        _ => Fetch::Get,
    }
}

/// How a server's player is asked for the video.
pub fn fetch_for(s: Server) -> (res: Fetch)
    ensures
        res == fetch_kind(s),
{
    match s {
        Server::Puj => Fetch::Nothing,
        Server::Fembed => Fetch::Post,
        _ => Fetch::Get,
    }
}

/// The address of a server's player read from an episode page: `None` where
/// the page does not link to the server; otherwise the server's prefix
/// followed by the text that the first match's base64 group decodes to.
pub open spec fn server_address_of(page: Seq<char>, s: Server) -> Result<
    Option<Seq<char>>,
    ScrapeError,
> {
    if !regex_compiles(server_pattern(s)) {
        Err(ScrapeError::Pattern)
    } else {
        let m = regex_captures(server_pattern(s), page);
        if m.len() == 0 {
            Ok(None)
        } else {
            match group(m[0], 2) {
                None => Err(ScrapeError::MissingGroup),
                Some(code) => match decoded_text(code) {
                    None => Err(ScrapeError::Base64),
                    Some(link) => Ok(Some(address_prefix(s) + link)),
                },
            }
        }
    }
}

/// Where a server's pattern matches an episode page and the base64 text of the
/// first match decodes to `link`, the address read is the server's own host
/// prefix followed by `link`; where the pattern does not match, no address is
/// read.
pub proof fn lemma_address_is_host_and_link(page: Seq<char>, s: Server, link: Seq<char>)
    requires
        regex_compiles(server_pattern(s)),
    ensures
        regex_captures(server_pattern(s), page).len() == 0 ==> server_address_of(page, s)
            == Ok::<_, ScrapeError>(None::<Seq<char>>),
        ({
            let m = regex_captures(server_pattern(s), page);
            m.len() > 0 && (group(m[0], 2) matches Some(code) && decoded_text(code) == Some(link))
        }) ==> server_address_of(page, s) == Ok::<_, ScrapeError>(
            Some(
                match s {
                    Server::Zeus => "https://www.solidfiles.com/e"@,
                    Server::Uqload => "https://uqload.com/"@,
                    Server::Videobin => "https://videobin.co"@,
                    Server::Puj => ""@,
                    Server::Fembed => "https://fembed-hd.com/api/source/"@,
                } + link,
            ),
        ),
{
}

/// Reads the address of a server's player from an episode page.
pub fn server_address(page: &str, s: Server) -> (res: Result<Option<String>, ScrapeError>)
    ensures
        match res {
            Ok(a) => server_address_of(page@, s) == Ok::<_, ScrapeError>(a.deep_view()),
            Err(e) => server_address_of(page@, s) == Err::<Option<Seq<char>>, _>(e),
        },
{
    let pattern = match Pattern::compile(server_pattern_text(s)) {
        Ok(p) => p,
        Err(_) => return Err(ScrapeError::Pattern),
    };
    let matches = pattern.captures_all(page);
    if matches.len() == 0 {
        return Ok(None);
    }
    let code = match group_text(&matches[0], 2) {
        Some(c) => c,
        None => return Err(ScrapeError::MissingGroup),
    };
    let link = match try_decode_base64(code.as_str()) {
        Some(l) => l,
        None => return Err(ScrapeError::Base64),
    };
    let mut address = String::from_str(address_prefix_text(s));
    address.append(link.as_str());
    Ok(Some(address))
}

/// A server's list, given the address of its player (if the page links to it)
/// and the reply of that player: the marker, the player's address where the
/// list keeps it, then the video's address where the reply holds one. For
/// `Puj` the decoded link itself is the video's address.
pub open spec fn server_list_of(s: Server, address: Option<Seq<char>>, reply: Seq<char>) -> Result<
    Seq<Seq<char>>,
    ScrapeError,
> {
    match address {
        None => Ok(seq![marker(s)]),
        Some(a) => if s == Server::Puj {
            Ok(seq![marker(s), a])
        } else {
            let base = if keeps_address(s) {
                seq![marker(s), a]
            } else {
                seq![marker(s)]
            };
            if !regex_compiles(stream_pattern(s)) {
                Err(ScrapeError::Pattern)
            } else {
                let m = regex_captures(stream_pattern(s), reply);
                if m.len() == 0 {
                    Ok(base)
                } else {
                    match group(m[0], 2) {
                        None => Err(ScrapeError::MissingGroup),
                        Some(t) => Ok(base.push(stream_prefix(s) + t)),
                    }
                }
            }
        },
    }
}

/// Builds a server's list from the address of its player and that player's reply.
pub fn server_list(s: Server, address: &Option<String>, reply: &str) -> (res: Result<
    Vec<String>,
    ScrapeError,
>)
    ensures
        match res {
            Ok(l) => server_list_of(s, address.deep_view(), reply@) == Ok::<_, ScrapeError>(
                l.deep_view(),
            ),
            Err(e) => server_list_of(s, address.deep_view(), reply@) == Err::<
                Seq<Seq<char>>,
                _,
            >(e),
        },
{
    let mut list: Vec<String> = Vec::new();
    list.push(String::from_str(marker_text(s)));
    let a = match address {
        None => {
            assert(list.deep_view() =~= seq![marker(s)]);
            return Ok(list);
        },
        Some(a) => a,
    };
    if s == Server::Puj || s == Server::Videobin || s == Server::Uqload {
        list.push(a.clone());
    }
    if s == Server::Puj {
        assert(list.deep_view() =~= seq![marker(s), a@]);
        return Ok(list);
    }
    assert(list.deep_view() =~= if keeps_address(s) {
        seq![marker(s), a@]
    } else {
        seq![marker(s)]
    });
    let pattern = match Pattern::compile(stream_pattern_text(s)) {
        Ok(p) => p,
        Err(_) => return Err(ScrapeError::Pattern),
    };
    let matches = pattern.captures_all(reply);
    if matches.len() == 0 {
        return Ok(list);
    }
    let found = match group_text(&matches[0], 2) {
        Some(t) => t,
        None => return Err(ScrapeError::MissingGroup),
    };
    let mut video = String::from_str(stream_prefix_text(s));
    video.append(found.as_str());
    let ghost prev = list.deep_view();
    let ghost vv = video@;
    list.push(video);
    assert(list.deep_view() =~= prev.push(vv));
    Ok(list)
}

/// What must be asked of a server's player before its list can be made.
#[derive(Debug, Clone, PartialEq, Eq)]
pub enum Request {
    /// Nothing: the page does not link to the server, or the decoded link is
    /// the video itself.
    Nothing,
    /// Fetch this address.
    Get(String),
    /// Send an empty POST request to this address.
    Post(String),
}

/// What must be asked of server `s`'s player, given the address read for it.
pub fn player_request(s: Server, address: &Option<String>) -> (res: Request)
    ensures
        match res {
            Request::Nothing => address.deep_view() is None || fetch_kind(s) == Fetch::Nothing,
            Request::Get(url) => fetch_kind(s) == Fetch::Get && address.deep_view() == Some(
                url@,
            ),
            Request::Post(url) => fetch_kind(s) == Fetch::Post && address.deep_view() == Some(
                url@,
            ),
        },
{
    match address {
        None => Request::Nothing,
        Some(a) => match fetch_for(s) {
            Fetch::Nothing => Request::Nothing,
            Fetch::Get => Request::Get(a.clone()),
            Fetch::Post => Request::Post(a.clone()),
        },
    }
}

/// The addresses of the players of the first `k` servers read from an
/// episode page, or the error of the first server whose address cannot be read.
pub open spec fn addresses_of(page: Seq<char>, k: nat) -> Result<
    Seq<Option<Seq<char>>>,
    ScrapeError,
>
    decreases k,
{
    if k == 0 {
        Ok(Seq::empty())
    } else {
        match addresses_of(page, (k - 1) as nat) {
            Err(e) => Err(e),
            Ok(found) => match server_address_of(page, server_at(k - 1)) {
                Err(e) => Err(e),
                Ok(a) => Ok(found.push(a)),
            },
        }
    }
}

/// Reads from an episode page the address of every server's player, in
/// server order.
pub fn player_addresses(page: &str) -> (res: Result<Vec<Option<String>>, ScrapeError>)
    ensures
        match res {
            Ok(found) => addresses_of(page@, SERVER_COUNT as nat) == Ok::<_, ScrapeError>(
                found.deep_view(),
            ),
            Err(e) => addresses_of(page@, SERVER_COUNT as nat) == Err::<
                Seq<Option<Seq<char>>>,
                _,
            >(e),
        },
{
    let mut found: Vec<Option<String>> = Vec::new();
    let mut i: usize = 0;
    assert(found.deep_view() =~= Seq::<Option<Seq<char>>>::empty());
    while i < SERVER_COUNT
        invariant
            i <= SERVER_COUNT,
            addresses_of(page@, i as nat) == Ok::<_, ScrapeError>(found.deep_view()),
        decreases SERVER_COUNT - i,
    {
        let a = match server_address(page, server_in_position(i)) {
            Ok(a) => a,
            Err(e) => {
                proof {
                    lemma_addresses_stay_failed(page@, (i + 1) as nat, SERVER_COUNT as nat);
                }
                return Err(e);
            },
        };
        let ghost prev = found.deep_view();
        let ghost av = a.deep_view();
        found.push(a);
        assert(found.deep_view() =~= prev.push(av));
        i += 1;
    }
    Ok(found)
}

proof fn lemma_addresses_stay_failed(page: Seq<char>, k: nat, n: nat)
    requires
        k <= n,
        addresses_of(page, k) is Err,
    ensures
        addresses_of(page, n) == addresses_of(page, k),
    decreases n - k,
{
    if k < n {
        lemma_addresses_stay_failed(page, k, (n - 1) as nat);
    }
}

/// The lists of the first `k` servers, given the address read for each
/// server's player and the reply that each player gave, or the error of the
/// first server whose list cannot be made.
pub open spec fn lists_of(
    addresses: Seq<Option<Seq<char>>>,
    replies: Seq<Seq<char>>,
    k: nat,
) -> Result<Seq<Seq<Seq<char>>>, ScrapeError>
    decreases k,
{
    if k == 0 {
        Ok(Seq::empty())
    } else {
        match lists_of(addresses, replies, (k - 1) as nat) {
            Err(e) => Err(e),
            Ok(lists) => match server_list_of(server_at(k - 1), addresses[k - 1], replies[k - 1]) {
                Err(e) => Err(e),
                Ok(l) => Ok(lists.push(l)),
            },
        }
    }
}

/// Makes one list per server, in server order, from the address read for
/// each server's player and the reply that player gave (the reply to
/// `Request::Nothing` is not read).
pub fn player_lists(addresses: &Vec<Option<String>>, replies: &Vec<String>) -> (res: Result<
    Vec<Vec<String>>,
    ScrapeError,
>)
    requires
        addresses.len() == SERVER_COUNT,
        replies.len() == SERVER_COUNT,
    ensures
        match res {
            Ok(lists) => lists_of(
                addresses.deep_view(),
                replies.deep_view(),
                SERVER_COUNT as nat,
            ) == Ok::<_, ScrapeError>(lists.deep_view()),
            Err(e) => lists_of(addresses.deep_view(), replies.deep_view(), SERVER_COUNT as nat)
                == Err::<Seq<Seq<Seq<char>>>, _>(e),
        },
{
    let ghost av = addresses.deep_view();
    let ghost rv = replies.deep_view();
    let mut lists: Vec<Vec<String>> = Vec::new();
    let mut i: usize = 0;
    assert(lists.deep_view() =~= Seq::<Seq<Seq<char>>>::empty());
    while i < SERVER_COUNT
        invariant
            i <= SERVER_COUNT,
            addresses.len() == SERVER_COUNT,
            replies.len() == SERVER_COUNT,
            av == addresses.deep_view(),
            rv == replies.deep_view(),
            lists_of(av, rv, i as nat) == Ok::<_, ScrapeError>(lists.deep_view()),
        decreases SERVER_COUNT - i,
    {
        assert(av[i as int] == addresses[i as int].deep_view());
        assert(rv[i as int] == replies[i as int]@);
        let list = match server_list(server_in_position(i), &addresses[i], replies[i].as_str()) {
            Ok(l) => l,
            Err(e) => {
                proof {
                    lemma_lists_stay_failed(av, rv, (i + 1) as nat, SERVER_COUNT as nat);
                }
                return Err(e);
            },
        };
        let ghost prev = lists.deep_view();
        let ghost lv = list.deep_view();
        lists.push(list);
        assert(lists.deep_view() =~= prev.push(lv));
        i += 1;
    }
    Ok(lists)
}

proof fn lemma_lists_stay_failed(
    addresses: Seq<Option<Seq<char>>>,
    replies: Seq<Seq<char>>,
    k: nat,
    n: nat,
)
    requires
        k <= n,
        lists_of(addresses, replies, k) is Err,
    ensures
        lists_of(addresses, replies, n) == lists_of(addresses, replies, k),
    decreases n - k,
{
    if k < n {
        lemma_lists_stay_failed(addresses, replies, k, (n - 1) as nat);
    }
}

/// A server whose player is not asked does not read its reply: its list is
/// the same whatever reply stands for it.
pub proof fn lemma_unasked_reply_unused(
    s: Server,
    address: Option<Seq<char>>,
    reply: Seq<char>,
    other: Seq<char>,
)
    requires
        address is None || fetch_kind(s) == Fetch::Nothing,
    ensures
        server_list_of(s, address, reply) == server_list_of(s, address, other),
{
}

} // verus!
