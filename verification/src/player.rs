use vstd::prelude::*;

use crate::error::ScrapeError;
use crate::servers::{lists_of, marker, server_at, server_list_of, Server, SERVER_COUNT};
use crate::text::text_eq;

verus! {

/// The shell command that plays the video of one server's list: a list
/// `["0", video]` plays `video`; a list `["1", player, video]` plays `video`
/// with `player` as referer; any other list gives no command.
pub open spec fn play_command(list: Seq<Seq<char>>) -> Option<Seq<char>> {
    if list.len() > 0 && list[0] == "0"@ && list.len() == 2 {
        Some("setsid -f mpv --really-quiet \""@ + list[1] + "\""@)
    } else if list.len() > 0 && list[0] == "1"@ && list.len() == 3 {
        Some(
            "setsid -f mpv --really-quiet --http-header-fields=\"Referer:"@ + list[1] + "\" \""@
                + list[2] + "\""@,
        )
    } else {
        None
    }
}

/// The command of the first list that gives one, or the empty text where none does.
pub open spec fn first_command(lists: Seq<Seq<Seq<char>>>) -> Seq<char>
    decreases lists.len(),
{
    if lists.len() == 0 {
        Seq::empty()
    } else {
        match play_command(lists[0]) {
            Some(c) => c,
            None => first_command(lists.skip(1)),
        }
    }
}

/// Whether the lists can be read up to the first one that gives a command:
/// every list read before it has a first entry.
pub open spec fn lists_readable(lists: Seq<Seq<Seq<char>>>) -> bool
    decreases lists.len(),
{
    if lists.len() == 0 {
        true
    } else {
        lists[0].len() > 0 && (play_command(lists[0]) is Some || lists_readable(lists.skip(1)))
    }
}

/// The command that plays the first usable server list, or an empty string
/// where no list is usable.
pub fn getargs(links: Vec<Vec<String>>) -> (res: String)
    requires
        lists_readable(links.deep_view()),
    ensures
        res@ == first_command(links.deep_view()),
{
    let ghost all = links.deep_view();
    let mut n: usize = 0;
    assert(all.skip(0) =~= all);
    while n < links.len()
        invariant
            n <= links.len(),
            all == links.deep_view(),
            lists_readable(all.skip(n as int)),
            first_command(all) == first_command(all.skip(n as int)),
        decreases links.len() - n,
    {
        let ghost rest = all.skip(n as int);
        assert(rest[0] == links[n as int].deep_view());
        let list = &links[n];
        if text_eq(list[0].as_str(), "0") && list.len() == 2 {
            let mut command = String::from_str("setsid -f mpv --really-quiet \"");
            command.append(list[1].as_str());
            command.append("\"");
            return command;
        } else if text_eq(list[0].as_str(), "1") && list.len() == 3 {
            let mut command = String::from_str(
                "setsid -f mpv --really-quiet --http-header-fields=\"Referer:",
            );
            command.append(list[1].as_str());
            command.append("\" \"");
            command.append(list[2].as_str());
            command.append("\"");
            return command;
        }
        assert(rest.skip(1) =~= all.skip(n + 1));
        n += 1;
    }
    String::new()
}

/// No command comes out exactly when no list is usable.
pub proof fn lemma_no_command_iff_none_usable(lists: Seq<Seq<Seq<char>>>)
    ensures
        first_command(lists).len() == 0 <==> forall|j: int|
            0 <= j < lists.len() ==> #[trigger] play_command(lists[j]) is None,
    decreases lists.len(),
{
    if lists.len() > 0 {
        match play_command(lists[0]) {
            Some(c) => {
                reveal_strlit("setsid -f mpv --really-quiet \"");
                reveal_strlit("setsid -f mpv --really-quiet --http-header-fields=\"Referer:");
                assert(c.len() > 0);
            },
            None => {
                lemma_no_command_iff_none_usable(lists.skip(1));
                if forall|j: int|
                    0 <= j < lists.skip(1).len() ==> #[trigger] play_command(lists.skip(1)[j])
                        is None {
                    assert forall|j: int| 0 <= j < lists.len() implies #[trigger] play_command(
                        lists[j],
                    ) is None by {
                        if j > 0 {
                            assert(lists[j] == lists.skip(1)[j - 1]);
                        }
                    }
                } else {
                    let j = choose|j: int|
                        0 <= j < lists.skip(1).len() && !(#[trigger] play_command(
                            lists.skip(1)[j],
                        ) is None);
                    assert(lists[j + 1] == lists.skip(1)[j]);
                    assert(!(play_command(lists[j + 1]) is None));
                }
            },
        }
    }
}

proof fn lemma_lists_shape(addresses: Seq<Option<Seq<char>>>, replies: Seq<Seq<char>>, k: nat)
    requires
        lists_of(addresses, replies, k) is Ok,
    ensures
        ({
            let lists = lists_of(addresses, replies, k)->Ok_0;
            &&& lists.len() == k
            &&& forall|j: int|
                0 <= j < k ==> (#[trigger] lists[j]).len() > 0 && lists[j][0] == marker(
                    server_at(j),
                ) && server_list_of(server_at(j), addresses[j], replies[j]) == Ok::<
                    _,
                    ScrapeError,
                >(lists[j])
        }),
    decreases k,
{
    if k > 0 {
        lemma_lists_shape(addresses, replies, (k - 1) as nat);
        let s = server_at(k - 1);
        let l = server_list_of(s, addresses[k - 1], replies[k - 1]);
        assert(l->Ok_0.len() > 0 && l->Ok_0[0] == marker(s));
    }
}

/// Every set of lists made from the servers' addresses and replies has one
/// list per server, each starting with that server's marker, and can be read
/// by `getargs`.
pub proof fn lemma_server_lists_playable(addresses: Seq<Option<Seq<char>>>, replies: Seq<Seq<char>>)
    requires
        lists_of(addresses, replies, SERVER_COUNT as nat) is Ok,
    ensures
        ({
            let lists = lists_of(addresses, replies, SERVER_COUNT as nat)->Ok_0;
            &&& lists.len() == SERVER_COUNT
            &&& forall|j: int|
                0 <= j < SERVER_COUNT ==> (#[trigger] lists[j]).len() > 0 && lists[j][0]
                    == marker(server_at(j))
            &&& lists_readable(lists)
        }),
{
    lemma_lists_shape(addresses, replies, SERVER_COUNT as nat);
    let lists = lists_of(addresses, replies, SERVER_COUNT as nat)->Ok_0;
    lemma_nonempty_readable(lists);
}

/// Where zeus's player replied with a video, the command built from the
/// servers' lists plays that video.
pub proof fn lemma_zeus_played_first(
    addresses: Seq<Option<Seq<char>>>,
    replies: Seq<Seq<char>>,
    video: Seq<char>,
)
    requires
        lists_of(addresses, replies, SERVER_COUNT as nat) is Ok,
        server_list_of(Server::Zeus, addresses[0], replies[0]) == Ok::<_, ScrapeError>(
            seq!["0"@, video],
        ),
    ensures
        first_command(lists_of(addresses, replies, SERVER_COUNT as nat)->Ok_0)
            == "setsid -f mpv --really-quiet \""@ + video + "\""@,
{
    lemma_lists_shape(addresses, replies, SERVER_COUNT as nat);
    let lists = lists_of(addresses, replies, SERVER_COUNT as nat)->Ok_0;
    assert(server_at(0) == Server::Zeus);
    assert(lists[0] == seq!["0"@, video]);
}

proof fn lemma_nonempty_readable(lists: Seq<Seq<Seq<char>>>)
    requires
        forall|j: int| 0 <= j < lists.len() ==> (#[trigger] lists[j]).len() > 0,
    ensures
        lists_readable(lists),
    decreases lists.len(),
{
    if lists.len() > 0 {
        assert forall|j: int| 0 <= j < lists.skip(1).len() implies (
        #[trigger] lists.skip(1)[j]).len() > 0 by {
            assert(lists[j + 1].len() > 0);
        }
        lemma_nonempty_readable(lists.skip(1));
        assert(lists[0].len() > 0);
    }
}

} // verus!
