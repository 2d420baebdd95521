use vstd::prelude::*;

use crate::error::ScrapeError;
use crate::pattern::{group, group_text, regex_captures, regex_compiles, Pattern};
use crate::text::{decimal, lemma_decimal_parses, parse_i32, parsed_i32};

verus! {

/// The pattern that finds each episode of a series page: group 2 holds the
/// episode number and group 4 the episode's address.
pub open spec fn episode_pattern() -> Seq<char> {
    "(<div class=\"col-item\".*data-episode=\")(.*)(\">.*\n.*<a href=\")(.*)(\">)"@
}

/// `n` empty addresses, standing for episodes that the page does not list.
pub open spec fn blanks(n: int) -> Seq<Seq<char>> {
    Seq::new(n as nat, |i: int| Seq::<char>::empty())
}

/// The episode list built from the matches read so far, with the number that
/// the next episode is expected to have.
///
/// An episode numbered at or after the expected number first adds one empty
/// address for each number it skips, then its own address, and the number
/// after it becomes the expected one; so each listed episode's address stands
/// at the position of its number and each missing episode keeps an empty
/// address there. An episode numbered before the expected number adds nothing
/// and the number after it becomes the expected one.
pub open spec fn episode_scan(matches: Seq<Seq<Option<Seq<char>>>>) -> Result<
    (Seq<Seq<char>>, int),
    ScrapeError,
>
    decreases matches.len(),
{
    if matches.len() == 0 {
        Ok((Seq::empty(), 1))
    } else {
        match episode_scan(matches.drop_last()) {
            Err(e) => Err(e),
            Ok((links, index)) => {
                let m = matches.last();
                match group(m, 2) {
                    None => Err(ScrapeError::MissingGroup),
                    Some(number) => match parsed_i32(number) {
                        None => Err(ScrapeError::EpisodeNumber),
                        Some(episode) => if episode - index < i32::MIN || episode - index
                            > i32::MAX {
                            Err(ScrapeError::EpisodeOverflow)
                        } else if episode >= index {
                            match group(m, 4) {
                                None => Err(ScrapeError::MissingGroup),
                                Some(link) => if episode + 1 > i32::MAX {
                                    Err(ScrapeError::EpisodeOverflow)
                                } else {
                                    Ok(((links + blanks(episode - index)).push(link), episode + 1))
                                },
                            }
                        } else {
                            Ok((links, episode + 1))
                        },
                    },
                }
            },
        }
    }
}

/// The episode list of a series page read from its matches.
pub open spec fn episode_list(matches: Seq<Seq<Option<Seq<char>>>>) -> Result<
    Seq<Seq<char>>,
    ScrapeError,
> {
    match episode_scan(matches) {
        Ok((links, _)) => Ok(links),
        Err(e) => Err(e),
    }
}

/// Builds the list of episode addresses from the matches of the episode
/// pattern on a series page; a missing episode gets an empty address.
pub fn episode_links(matches: &Vec<Vec<Option<String>>>) -> (res: Result<Vec<String>, ScrapeError>)
    ensures
        match res {
            Ok(links) => episode_list(matches.deep_view()) == Ok::<_, ScrapeError>(
                links.deep_view(),
            ),
            Err(e) => episode_list(matches.deep_view()) == Err::<Seq<Seq<char>>, _>(e),
        },
{
    let ghost all = matches.deep_view();
    let mut links: Vec<String> = Vec::new();
    let mut index: i32 = 1;
    let mut i: usize = 0;
    assert(all.take(0) =~= Seq::<Seq<Option<Seq<char>>>>::empty());
    assert(links.deep_view() =~= Seq::<Seq<char>>::empty());
    while i < matches.len()
        invariant
            all == matches.deep_view(),
            i <= matches.len(),
            episode_scan(all.take(i as int)) == Ok::<_, ScrapeError>(
                (links.deep_view(), index as int),
            ),
        decreases matches.len() - i,
    {
        assert(all.take(i + 1).drop_last() =~= all.take(i as int));
        assert(all.take(i + 1).last() == all[i as int]);
        let number = match group_text(&matches[i], 2) {
            Some(n) => n,
            None => {
                proof { lemma_scan_stays_failed(all, i as int + 1) }
                return Err(ScrapeError::MissingGroup);
            },
        };
        let episode = match parse_i32(number.as_str()) {
            Some(e) => e,
            None => {
                proof { lemma_scan_stays_failed(all, i as int + 1) }
                return Err(ScrapeError::EpisodeNumber);
            },
        };
        let gap: i64 = episode as i64 - index as i64;
        if gap < -2147483648 || gap > 2147483647 {
            proof { lemma_scan_stays_failed(all, i as int + 1) }
            return Err(ScrapeError::EpisodeOverflow);
        }
        if gap >= 0 {
            let link = match group_text(&matches[i], 4) {
                Some(l) => l,
                None => {
                    proof { lemma_scan_stays_failed(all, i as int + 1) }
                    return Err(ScrapeError::MissingGroup);
                },
            };
            if episode == i32::MAX {
                proof { lemma_scan_stays_failed(all, i as int + 1) }
                return Err(ScrapeError::EpisodeOverflow);
            }
            let ghost before = links.deep_view();
            let mut x: i64 = 0;
            while x < gap
                invariant
                    0 <= x <= gap,
                    links.deep_view() == before + blanks(x as int),
                decreases gap - x,
            {
                let ghost prev = links.deep_view();
                links.push(String::new());
                assert(links.deep_view() =~= prev.push(Seq::<char>::empty()));
                x = x + 1;
                assert(links.deep_view() =~= before + blanks(x as int));
            }
            let ghost filled = links.deep_view();
            let ghost lv = link@;
            links.push(link);
            assert(links.deep_view() =~= filled.push(lv));
            index = episode + 1;
        } else {
            index = episode + 1;
        }
        i += 1;
    }
    assert(all.take(matches.len() as int) =~= all);
    Ok(links)
}

proof fn lemma_scan_stays_failed(all: Seq<Seq<Option<Seq<char>>>>, k: int)
    requires
        0 <= k <= all.len(),
        episode_scan(all.take(k)) is Err,
    ensures
        episode_scan(all) == episode_scan(all.take(k)),
    decreases all.len() - k,
{
    if k < all.len() {
        assert(all.take(k + 1).drop_last() =~= all.take(k));
        lemma_scan_stays_failed(all, k + 1);
    } else {
        assert(all.take(k) =~= all);
    }
}

/// Lists the addresses of the episodes of a series from its page.
pub fn episodes_of_page(page: &str) -> (res: Result<Vec<String>, ScrapeError>)
    ensures
        match res {
            Ok(links) => regex_compiles(episode_pattern()) && episode_list(
                regex_captures(episode_pattern(), page@),
            ) == Ok::<_, ScrapeError>(links.deep_view()),
            Err(e) => if regex_compiles(episode_pattern()) {
                episode_list(regex_captures(episode_pattern(), page@)) == Err::<
                    Seq<Seq<char>>,
                    _,
                >(e)
            } else {
                e == ScrapeError::Pattern
            },
        },
{
    let fetch_links_and_indexes = match Pattern::compile(
        "(<div class=\"col-item\".*data-episode=\")(.*)(\">.*\n.*<a href=\")(.*)(\">)",
    ) {
        Ok(p) => p,
        Err(_) => return Err(ScrapeError::Pattern),
    };
    let matches = fetch_links_and_indexes.captures_all(page);
    episode_links(&matches)
}

/// A match of the episode pattern whose number group reads `number` and whose
/// address group reads `link`.
pub open spec fn listed_episode(m: Seq<Option<Seq<char>>>, number: nat, link: Seq<char>) -> bool {
    &&& group(m, 2) == Some(decimal(number))
    &&& group(m, 4) == Some(link)
}

/// When the page numbers its episodes in increasing order from 1 on, the
/// episode list is as long as the last number, each listed episode's address
/// stands at the position of its number (counted from 1), and every position
/// whose number the page does not list holds an empty address.
pub proof fn lemma_increasing_episodes(
    matches: Seq<Seq<Option<Seq<char>>>>,
    numbers: Seq<nat>,
    links: Seq<Seq<char>>,
)
    requires
        matches.len() == numbers.len() == links.len(),
        forall|k: int|
            0 <= k < matches.len() ==> listed_episode(
                #[trigger] matches[k],
                numbers[k],
                links[k],
            ),
        forall|k: int| 0 <= k < numbers.len() ==> 1 <= #[trigger] numbers[k] < i32::MAX,
        forall|j: int, k: int| 0 <= j < k < numbers.len() ==> numbers[j] < numbers[k],
    ensures
        episode_list(matches) is Ok,
        placed_episodes(episode_list(matches)->Ok_0, numbers, links),
{
    lemma_increasing_scan(matches, numbers, links);
}

/// `result` holds each address of `links` at the position of its number
/// (counted from 1), an empty address at every other position, and ends with
/// the last number.
pub open spec fn placed_episodes(result: Seq<Seq<char>>, numbers: Seq<nat>, links: Seq<Seq<char>>) -> bool {
    &&& result.len() == (if numbers.len() == 0 {
        0
    } else {
        numbers.last() as int
    })
    &&& forall|k: int| 0 <= k < numbers.len() ==> result[numbers[k] - 1] == #[trigger] links[k]
    &&& forall|p: int|
        0 <= p < result.len() && (forall|k: int| 0 <= k < numbers.len() ==> numbers[k] != p + 1)
            ==> #[trigger] result[p] == Seq::<char>::empty()
}

proof fn lemma_increasing_scan(
    matches: Seq<Seq<Option<Seq<char>>>>,
    numbers: Seq<nat>,
    links: Seq<Seq<char>>,
)
    requires
        matches.len() == numbers.len() == links.len(),
        forall|k: int|
            0 <= k < matches.len() ==> listed_episode(
                #[trigger] matches[k],
                numbers[k],
                links[k],
            ),
        forall|k: int| 0 <= k < numbers.len() ==> 1 <= #[trigger] numbers[k] < i32::MAX,
        forall|j: int, k: int| 0 <= j < k < numbers.len() ==> numbers[j] < numbers[k],
    ensures
        episode_scan(matches) is Ok,
        episode_scan(matches)->Ok_0.1 == (if numbers.len() == 0 {
            1
        } else {
            numbers.last() + 1
        }),
        placed_episodes(episode_scan(matches)->Ok_0.0, numbers, links),
    decreases matches.len(),
{
    if matches.len() > 0 {
        let n = matches.len() - 1;
        let pm = matches.drop_last();
        let pn = numbers.drop_last();
        let pl = links.drop_last();
        assert forall|k: int| 0 <= k < pm.len() implies listed_episode(
            #[trigger] pm[k],
            pn[k],
            pl[k],
        ) by {
            assert(listed_episode(matches[k], numbers[k], links[k]));
        }
        assert forall|k: int| 0 <= k < pn.len() implies 1 <= #[trigger] pn[k] < i32::MAX by {
            assert(1 <= numbers[k] < i32::MAX);
        }
        lemma_increasing_scan(pm, pn, pl);
        let (prev, index) = episode_scan(pm)->Ok_0;
        let episode = numbers[n];
        assert(1 <= numbers[n] < i32::MAX);
        if n > 0 {
            assert(numbers[n - 1] < numbers[n]);
        }
        assert(index <= episode);
        assert(listed_episode(matches[n], episode, links[n]));
        lemma_decimal_parses(episode);
        assert(matches.last() == matches[n]);
        let result = (prev + blanks(episode - index)).push(links[n]);
        assert(episode_scan(matches) == Ok::<_, ScrapeError>((result, episode + 1 as int)));
        assert(prev.len() == index - 1);
        assert(result.len() == episode);
        assert forall|k: int| 0 <= k < numbers.len() implies result[numbers[k] - 1]
            == #[trigger] links[k] by {
            if k < n {
                assert(pl[k] == links[k]);
                assert(pn[k] == numbers[k]);
                assert(prev[pn[k] - 1] == pl[k]);
                assert(numbers[k] < numbers[n]);
                if n > 0 {
                    assert(numbers[k] <= numbers[n - 1]);
                }
            }
        }
        assert forall|p: int|
            0 <= p < result.len() && (forall|k: int|
                0 <= k < numbers.len() ==> numbers[k] != p + 1) implies #[trigger] result[p]
            == Seq::<char>::empty() by {
            assert(numbers[n] != p + 1);
            if p < prev.len() {
                assert forall|k: int| 0 <= k < pn.len() implies pn[k] != p + 1 by {
                    assert(numbers[k] != p + 1);
                }
                assert(prev[p] == Seq::<char>::empty());
            }
        }
    }
}

} // verus!
