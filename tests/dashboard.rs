use otp_vault::dashboard::{page_bounds, page_count, Action, Dashboard, Event, Mode};

fn names(list: &[&str]) -> Vec<Vec<char>> {
    list.iter().map(|n| n.chars().collect()).collect()
}

fn type_text(d: &mut Dashboard, text: &str, ns: &Vec<Vec<char>>) {
    for c in text.chars() {
        assert_eq!(d.step(Event::Char(c), ns), Action::ShowList { page: 0 });
    }
}

#[test]
fn pages_of_five() {
    assert_eq!(page_count(0), 0);
    assert_eq!(page_count(5), 1);
    assert_eq!(page_count(6), 2);
    assert_eq!(page_bounds(0, 7), (0, 5));
    assert_eq!(page_bounds(1, 7), (5, 7));
    assert_eq!(page_bounds(3, 7), (7, 7));
}

#[test]
fn enter_index_shows_token() {
    let ns = names(&["a", "b", "c"]);
    let mut d = Dashboard::new();
    type_text(&mut d, "2", &ns);
    assert_eq!(d.step(Event::Enter, &ns), Action::ShowToken { index: 2 });
    assert_eq!(d.mode, Mode::Token { index: 2 });
    assert!(d.input.is_empty());
    assert_eq!(d.step(Event::Timer, &ns), Action::ShowToken { index: 2 });
    assert_eq!(d.step(Event::Char('c'), &ns), Action::Copy { index: 2 });
    assert_eq!(d.step(Event::Char('q'), &ns), Action::ShowList { page: 0 });
    assert_eq!(d.mode, Mode::List { page: 0 });
}

#[test]
fn enter_name_shows_token() {
    let ns = names(&["GitHub-me", "7"]);
    let mut d = Dashboard::new();
    type_text(&mut d, "GitHub-me", &ns);
    assert_eq!(d.step(Event::Enter, &ns), Action::ShowToken { index: 0 });
    let mut d = Dashboard::new();
    type_text(&mut d, "+1", &ns);
    assert_eq!(d.step(Event::Enter, &ns), Action::ShowToken { index: 1 });
}

#[test]
fn unknown_input_redraws_list() {
    let ns = names(&["a"]);
    let mut d = Dashboard::new();
    assert_eq!(d.step(Event::Enter, &ns), Action::Nothing);
    type_text(&mut d, "5", &ns);
    assert_eq!(d.step(Event::Enter, &ns), Action::ShowList { page: 0 });
    assert_eq!(d.input, vec!['5']);
    assert_eq!(d.step(Event::Backspace, &ns), Action::ShowList { page: 0 });
    assert!(d.input.is_empty());
    type_text(&mut d, "xy", &ns);
    assert_eq!(d.step(Event::CtrlD, &ns), Action::ShowList { page: 0 });
    assert!(d.input.is_empty());
    let huge = "99999999999999999999999";
    type_text(&mut d, huge, &ns);
    assert_eq!(d.step(Event::Enter, &ns), Action::ShowList { page: 0 });
}

#[test]
fn paging_stays_in_range() {
    let ns = names(&["a", "b", "c", "d", "e", "f"]);
    let mut d = Dashboard::new();
    assert_eq!(d.step(Event::Left, &ns), Action::Nothing);
    assert_eq!(d.step(Event::Right, &ns), Action::ShowList { page: 1 });
    assert_eq!(d.step(Event::Right, &ns), Action::Nothing);
    assert_eq!(d.step(Event::Left, &ns), Action::ShowList { page: 0 });
    let empty = names(&[]);
    let mut e = Dashboard::new();
    assert_eq!(e.step(Event::Right, &empty), Action::Nothing);
}

#[test]
fn escape_exits() {
    let ns = names(&["a"]);
    let mut d = Dashboard::new();
    assert_eq!(d.step(Event::Esc, &ns), Action::Exit);
    type_text(&mut d, "0", &ns);
    d.step(Event::Enter, &ns);
    assert_eq!(d.step(Event::CtrlC, &ns), Action::Exit);
}
