use vstd::prelude::*;

use crate::text::{
    all_ascii, ascii_lower,
    decimal, decimal_string, lowercased, parse_i32, parsed_i32, text_eq, to_lowercase, trim,
    trimmed,
};

verus! {

/// The question put when the user must pick one of several things.
pub open spec fn choice_question(what: Seq<char>) -> Seq<char> {
    "Elige un "@ + what
}

/// The question put when the user must pick one of several things.
pub fn choice_prompt(what: &str) -> (res: String)
    ensures
        res@ == choice_question(what@),
{
    let mut prompt = String::from_str("Elige un ");
    prompt.append(what);
    prompt
}

/// The name of a thing to pick, with the range of numbers it can be picked by.
pub open spec fn range_text(what: Seq<char>, count: nat) -> Seq<char> {
    what + " [1-"@ + decimal(count) + "]"@
}

/// The name of a thing to pick, with the range of numbers it can be picked by
/// (such as `episodio [1-12]`).
pub fn range_label(what: &str, count: usize) -> (res: String)
    ensures
        res@ == range_text(what@, count as nat),
{
    let mut label = String::from_str(what);
    label.append(" [1-");
    label.append(decimal_string(count as u64).as_str());
    label.append("]");
    label
}

/// What an answer to a pick among `length` things amounts to.
#[derive(Debug, Clone, Copy, PartialEq, Eq, Structural)]
pub enum Choice {
    /// The thing at this position (counted from 0) was picked.
    Selected(i32),
    /// The answer is not a number: the question is put again.
    NotANumber,
    /// The number is not between 1 and `length`: the question is put again.
    OutOfRange,
}

/// The pick that is made without asking: with exactly one thing to pick,
/// that thing is taken.
pub fn single_choice(length: usize) -> (res: Option<i32>)
    ensures
        res == (if length == 1 {
            Some(0i32)
        } else {
            None
        }),
{
    if length == 1 {
        Some(0)
    } else {
        None
    }
}

/// What an answer amounts to: the answer without surrounding white space is
/// read as an `i32`; a number from 1 to `length` picks the thing at that
/// position, counted from 1.
pub open spec fn choice_of(answer: Seq<char>, length: int) -> Choice {
    match parsed_i32(trimmed(answer)) {
        None => Choice::NotANumber,
        Some(i) => if i > length || i < 1 {
            Choice::OutOfRange
        } else {
            Choice::Selected((i - 1) as i32)
        },
    }
}

/// Reads one answer to a pick among `length` things.
pub fn choice_outcome(answer: &str, length: usize) -> (res: Choice)
    requires
        parsed_i32(trimmed(answer@)) is Some ==> length <= i32::MAX,
    ensures
        res == choice_of(answer@, length as int),
        res matches Choice::Selected(i) ==> 0 <= i < length,
{
    let index = match parse_i32(trim(answer).as_str()) {
        Some(i) => i,
        None => return Choice::NotANumber,
    };
    let bound = length as i32;
    if index > bound {
        Choice::OutOfRange
    } else if index < 1 {
        Choice::OutOfRange
    } else {
        Choice::Selected(index - 1)
    }
}

/// One line of the list of series found: its number (from 1), title and category.
pub open spec fn menu_line(n: int, title: Seq<char>, category: Seq<char>) -> Seq<char> {
    "["@ + decimal((n + 1) as nat) + "] "@ + title + " - "@ + category
}

/// The lines that list the series found, one per title, each with the
/// category of the same position.
pub fn anime_menu(animelist: &Vec<Vec<String>>) -> (res: Vec<String>)
    requires
        animelist.len() >= 1,
        animelist[0].len() > 0 ==> animelist.len() >= 2 && animelist[1].len()
            >= animelist[0].len(),
    ensures
        res.len() == animelist[0].len(),
        forall|n: int|
            0 <= n < res.len() ==> (#[trigger] res[n])@ == menu_line(
                n,
                animelist[0][n]@,
                animelist[1][n]@,
            ),
{
    let mut lines: Vec<String> = Vec::new();
    if animelist[0].len() == 0 {
        return lines;
    }
    let titles = &animelist[0];
    let categories = &animelist[1];
    let count = titles.len();
    let mut n: usize = 0;
    while n < count
        invariant
            titles == animelist[0],
            categories == animelist[1],
            count <= categories.len(),
            count <= titles.len(),
            n <= count,
            lines.len() == n,
            forall|k: int|
                0 <= k < n ==> (#[trigger] lines[k])@ == menu_line(
                    k,
                    titles[k]@,
                    categories[k]@,
                ),
        decreases count - n,
    {
        let mut line = String::from_str("[");
        line.append(decimal_string((n + 1) as u64).as_str());
        line.append("] ");
        line.append(titles[n].as_str());
        line.append(" - ");
        line.append(categories[n].as_str());
        lines.push(line);
        n += 1;
    }
    lines
}

/// The line shown when an episode starts playing: the series' name, and the
/// episode's number (from 1) where the series has more than one.
pub open spec fn watching_text(name: Seq<char>, count: int, episode: int) -> Seq<char> {
    if count == 1 {
        "Viendo \""@ + name + "\".\n"@
    } else {
        "Viendo \""@ + name + "\", episodio "@ + decimal((episode + 1) as nat) + ".\n"@
    }
}

/// The line shown when episode `episode` (counted from 0) of `count` starts playing.
pub fn watching_message(name: &str, count: usize, episode: i32) -> (res: String)
    requires
        0 <= episode < count,
    ensures
        res@ == watching_text(name@, count as int, episode as int),
{
    let mut message = String::from_str("Viendo \"");
    message.append(name);
    if count == 1 {
        message.append("\".\n");
    } else {
        message.append("\", episodio ");
        message.append(decimal_string((episode as u64) + 1).as_str());
        message.append(".\n");
    }
    message
}

/// What the player's menu offers after an episode starts: 1 for the first of
/// several episodes (next only), 2 for the last of several (previous only),
/// 3 for one in between (both), and 0 for a single episode.
pub open spec fn menu_case(index: int, len: int) -> i8 {
    if index == 0 && index + 1 == len {
        0
    } else if index == 0 {
        1
    } else if index + 1 == len {
        2
    } else {
        3
    }
}

/// The text of the player's menu for a given case.
pub open spec fn menu_text(case: i8) -> Seq<char> {
    let moves = if case == 1 {
        "[s] Siguiente episodio\n"@
    } else if case == 2 {
        "[a] Anterior episodio\n"@
    } else if case == 3 {
        "[a] Anterior episodio\n[s] Siguiente Episodio\n"@
    } else {
        ""@
    };
    moves
        + "[r] Ver de nuevo\n[o] Seleccionar otro episodio\n[b] Buscar otro anime\n[q] Salir\nEscoge una opción"@
}

/// The player's menu while episode `index` of `len` plays: its case and its text.
pub fn controller_menu(index: i32, len: usize) -> (res: (i8, String))
    requires
        len <= i32::MAX,
        index < i32::MAX,
    ensures
        res.0 == menu_case(index as int, len as int),
        res.1@ == menu_text(res.0),
{
    proof {
        reveal_strlit("");
    }
    let last = len as i32;
    let mut prompt = String::new();
    let mut case: i8 = 0;
    if index == 0 && index + 1 == last {
    } else if index == 0 {
        prompt.append("[s] Siguiente episodio\n");
        case = 1;
    } else if index + 1 == last {
        prompt.append("[a] Anterior episodio\n");
        case = 2;
    } else {
        prompt.append("[a] Anterior episodio\n[s] Siguiente Episodio\n");
        case = 3;
    }
    prompt.append(
        "[r] Ver de nuevo\n[o] Seleccionar otro episodio\n[b] Buscar otro anime\n[q] Salir\nEscoge una opción",
    );
    (case, prompt)
}

/// What the user asked for in the player's menu.
#[derive(Debug, Clone, Copy, PartialEq, Eq, Structural)]
pub enum Decision {
    /// Leave the program.
    Quit,
    /// Go back to searching for a series.
    Search,
    /// Play this episode again.
    Replay(i32),
    /// Pick another episode by number.
    ChooseAnother,
    /// Play this episode.
    Play(i32),
    /// The answer is none of the offered options.
    Invalid,
}

/// What an answer to the player's menu asks for: the answer without
/// surrounding white space, lower-cased, names an option; next and previous
/// count only where the menu's case offers them.
pub open spec fn decision_of(case: i8, index: int, answer: Seq<char>) -> Decision {
    let option = lowercased(trimmed(answer));
    if option == "q"@ {
        Decision::Quit
    } else if option == "b"@ {
        Decision::Search
    } else if option == "r"@ {
        Decision::Replay(index as i32)
    } else if option == "o"@ {
        Decision::ChooseAnother
    } else if case == 1 && option == "s"@ {
        Decision::Play((index + 1) as i32)
    } else if case == 2 && option == "a"@ {
        Decision::Play((index - 1) as i32)
    } else if case == 3 && option == "s"@ {
        Decision::Play((index + 1) as i32)
    } else if case == 3 && option == "a"@ {
        Decision::Play((index - 1) as i32)
    } else {
        Decision::Invalid
    }
}

/// Reads one answer to the player's menu.
pub fn controller_decision(case: i8, index: i32, answer: &str) -> (res: Decision)
    requires
        case == 1 || case == 3 ==> index < i32::MAX,
        case == 2 || case == 3 ==> index > i32::MIN,
    ensures
        res == decision_of(case, index as int, answer@),
        all_ascii(trimmed(answer@)) ==> lowercased(trimmed(answer@)) == trimmed(answer@).map_values(
            |c: char| ascii_lower(c),
        ),
{
    let option = to_lowercase(trim(answer).as_str());
    let option = option.as_str();
    if text_eq(option, "q") {
        Decision::Quit
    } else if text_eq(option, "b") {
        Decision::Search
    } else if text_eq(option, "r") {
        Decision::Replay(index)
    } else if text_eq(option, "o") {
        Decision::ChooseAnother
    } else if case == 1 && text_eq(option, "s") {
        Decision::Play(index + 1)
    } else if case == 2 && text_eq(option, "a") {
        Decision::Play(index - 1)
    } else if case == 3 && text_eq(option, "s") {
        Decision::Play(index + 1)
    } else if case == 3 && text_eq(option, "a") {
        Decision::Play(index - 1)
    } else {
        Decision::Invalid
    }
}

/// Whatever the answers, the menu of a valid episode never leads to an
/// episode outside the list: next, previous and again stay inside it, and
/// another episode is picked by position among the list's episodes.
pub proof fn lemma_menu_stays_in_range(index: int, len: int, answer: Seq<char>, pick: Seq<char>)
    requires
        0 <= index < len <= i32::MAX,
    ensures
        choice_of(pick, len) matches Choice::Selected(j) ==> 0 <= j < len,
        decision_of(menu_case(index, len), index, answer) matches Decision::Play(j) ==> 0 <= j
            < len,
        decision_of(menu_case(index, len), index, answer) matches Decision::Replay(j) ==> j
            == index,
{
}

/// Previous and next move by one episode: where the menu offers the previous
/// episode (cases 2 and 3), the answer `a` plays the episode before this one;
/// where it offers the next (cases 1 and 3), `s` plays the one after it.
pub proof fn lemma_menu_moves_by_one(case: i8, index: int, answer: Seq<char>)
    requires
        i32::MIN < index < i32::MAX,
    ensures
        (case == 2 || case == 3) && lowercased(trimmed(answer)) == "a"@ ==> decision_of(
            case,
            index,
            answer,
        ) == Decision::Play((index - 1) as i32),
        (case == 1 || case == 3) && lowercased(trimmed(answer)) == "s"@ ==> decision_of(
            case,
            index,
            answer,
        ) == Decision::Play((index + 1) as i32),
        lowercased(trimmed(answer)) == "q"@ ==> decision_of(case, index, answer)
            == Decision::Quit,
        lowercased(trimmed(answer)) == "b"@ ==> decision_of(case, index, answer)
            == Decision::Search,
        lowercased(trimmed(answer)) == "r"@ ==> decision_of(case, index, answer)
            == Decision::Replay(index as i32),
        lowercased(trimmed(answer)) == "o"@ ==> decision_of(case, index, answer)
            == Decision::ChooseAnother,
{
    reveal_strlit("a");
    reveal_strlit("s");
    reveal_strlit("q");
    reveal_strlit("b");
    reveal_strlit("r");
    reveal_strlit("o");
    let names = seq!["a"@, "s"@, "q"@, "b"@, "r"@, "o"@];
    assert forall|x: int, y: int| 0 <= x < y < 6 implies #[trigger] names[x] != #[trigger] names[y] by {
        assert(names[x][0] != names[y][0]);
    }
    assert("a"@ != "q"@ && "a"@ != "b"@ && "a"@ != "r"@ && "a"@ != "o"@ && "a"@ != "s"@) by {
        assert(names[0] != names[2] && names[0] != names[3] && names[0] != names[4]
            && names[0] != names[5] && names[0] != names[1]);
    }
    assert("s"@ != "q"@ && "s"@ != "b"@ && "s"@ != "r"@ && "s"@ != "o"@) by {
        assert(names[1] != names[2] && names[1] != names[3] && names[1] != names[4]
            && names[1] != names[5]);
    }
    assert("q"@ != "b"@ && "q"@ != "r"@ && "q"@ != "o"@ && "b"@ != "r"@ && "b"@ != "o"@
        && "r"@ != "o"@) by {
        assert(names[2] != names[3] && names[2] != names[4] && names[2] != names[5]
            && names[3] != names[4] && names[3] != names[5] && names[4] != names[5]);
    }
}

/// A number from 1 to `length` picks the thing at that position, counted from
/// 1; any other number is out of range, and an answer that is not a number
/// asks again.
pub proof fn lemma_choice_by_position(answer: Seq<char>, length: int)
    ensures
        forall|i: i32|
            parsed_i32(trimmed(answer)) == Some(i) && 1 <= i <= length ==> choice_of(answer, length)
                == Choice::Selected((i - 1) as i32),
        forall|i: i32|
            parsed_i32(trimmed(answer)) == Some(i) && (i < 1 || i > length) ==> choice_of(
                answer,
                length,
            ) == Choice::OutOfRange,
        parsed_i32(trimmed(answer)) is None ==> choice_of(answer, length) == Choice::NotANumber,
{
}

} // verus!
