use anicli_es::menu::{
    anime_menu, choice_outcome, choice_prompt, controller_decision, controller_menu, range_label,
    single_choice, watching_message, Choice, Decision,
};

const TAIL: &str = "[r] Ver de nuevo\n[o] Seleccionar otro episodio\n[b] Buscar otro anime\n[q] Salir\nEscoge una opción";

#[test]
fn prompts() {
    assert_eq!(choice_prompt("episodio [1-3]"), "Elige un episodio [1-3]");
    assert_eq!(range_label("episodio", 12), "episodio [1-12]");
    assert_eq!(range_label("animé", 1), "animé [1-1]");
}

#[test]
fn choice_outcome_reads_answers() {
    assert_eq!(choice_outcome(" 3 \n", 5), Choice::Selected(2));
    assert_eq!(choice_outcome("1", 5), Choice::Selected(0));
    assert_eq!(choice_outcome("5", 5), Choice::Selected(4));
    assert_eq!(choice_outcome("+2", 5), Choice::Selected(1));
    assert_eq!(choice_outcome("0", 5), Choice::OutOfRange);
    assert_eq!(choice_outcome("6", 5), Choice::OutOfRange);
    assert_eq!(choice_outcome("-1", 5), Choice::OutOfRange);
    assert_eq!(choice_outcome("dos", 5), Choice::NotANumber);
    assert_eq!(choice_outcome("", 5), Choice::NotANumber);
}

#[test]
fn anime_menu_lines() {
    let list = vec![
        vec!["Naruto".to_string(), "Bleach".to_string()],
        vec!["Anime 2002".to_string(), "Anime 2004".to_string()],
        vec!["a".to_string(), "b".to_string()],
    ];
    assert_eq!(
        anime_menu(&list),
        vec!["[1] Naruto - Anime 2002".to_string(), "[2] Bleach - Anime 2004".to_string()]
    );
}

#[test]
fn anime_menu_of_no_series_is_empty() {
    let empty: Vec<Vec<String>> = vec![vec![]];
    assert_eq!(anime_menu(&empty), Vec::<String>::new());
}

#[test]
fn single_choice_only_for_one_thing() {
    assert_eq!(single_choice(1), Some(0));
    assert_eq!(single_choice(0), None);
    assert_eq!(single_choice(2), None);
}

#[test]
fn controller_menu_cases() {
    assert_eq!(controller_menu(0, 1), (0, TAIL.to_string()));
    assert_eq!(controller_menu(0, 3), (1, format!("[s] Siguiente episodio\n{}", TAIL)));
    assert_eq!(controller_menu(2, 3), (2, format!("[a] Anterior episodio\n{}", TAIL)));
    assert_eq!(
        controller_menu(1, 3),
        (3, format!("[a] Anterior episodio\n[s] Siguiente Episodio\n{}", TAIL))
    );
}

#[test]
fn controller_decisions() {
    assert_eq!(controller_decision(1, 0, "S"), Decision::Play(1));
    assert_eq!(controller_decision(1, 0, "a"), Decision::Invalid);
    assert_eq!(controller_decision(2, 2, " a "), Decision::Play(1));
    assert_eq!(controller_decision(2, 2, "s"), Decision::Invalid);
    assert_eq!(controller_decision(3, 1, "s"), Decision::Play(2));
    assert_eq!(controller_decision(3, 1, "A"), Decision::Play(0));
    assert_eq!(controller_decision(0, 0, "s"), Decision::Invalid);
    assert_eq!(controller_decision(0, 0, "Q\n"), Decision::Quit);
    assert_eq!(controller_decision(0, 0, "b"), Decision::Search);
    assert_eq!(controller_decision(3, 1, "R"), Decision::Replay(1));
    assert_eq!(controller_decision(3, 1, "o"), Decision::ChooseAnother);
    assert_eq!(controller_decision(3, 1, "quit"), Decision::Invalid);
}

#[test]
fn menu_never_leaves_the_episode_list() {
    let len = 4usize;
    for index in 0..len as i32 {
        let (case, _) = controller_menu(index, len);
        for answer in ["s", "a", "S", "A", "r", "o", "x"] {
            match controller_decision(case, index, answer) {
                Decision::Play(j) | Decision::Replay(j) => assert!(0 <= j && (j as usize) < len),
                _ => {}
            }
        }
    }
}

#[test]
fn watching_messages() {
    assert_eq!(watching_message("Naruto", 1, 0), "Viendo \"Naruto\".\n");
    assert_eq!(watching_message("Naruto", 220, 9), "Viendo \"Naruto\", episodio 10.\n");
}
