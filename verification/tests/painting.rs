use git_ignore::catalog::{dedup, name_from, normalize_names, strip_endings, CatalogUnavailable};
use git_ignore::keys::Key;
use git_ignore::model::{Event, Outcome, Picker};
use git_ignore::render::{draw, request_url, reserve, DrawOp, Tint};
use git_ignore::session::{open_session, turn};

fn names(list: &[&str]) -> Vec<String> {
    list.iter().map(|s| s.to_string()).collect()
}

fn text(s: &str) -> DrawOp {
    DrawOp::Print(s.to_string())
}

fn blank_row() -> Vec<DrawOp> {
    vec![DrawOp::ClearLine, text("\n")]
}

fn plain_row(name: &str) -> Vec<DrawOp> {
    vec![DrawOp::ClearLine, text("\r "), text(" "), text(" "), text(name), text("\n")]
}

fn marked_row(name: &str) -> Vec<DrawOp> {
    vec![
        DrawOp::ClearLine,
        text("\r "),
        DrawOp::SetColor(Tint::Blue),
        text(">"),
        DrawOp::ResetColor,
        text(" "),
        text(name),
        text("\n"),
    ]
}

fn search_line(label: &str, typed: &str) -> Vec<DrawOp> {
    vec![
        text(label),
        DrawOp::SetColor(Tint::Green),
        text(typed),
        DrawOp::ResetColor,
        DrawOp::SavePosition,
        DrawOp::MoveToNextLine,
    ]
}

fn tail() -> Vec<DrawOp> {
    vec![DrawOp::RestorePosition, DrawOp::SetColor(Tint::Green), DrawOp::Flush]
}

#[test]
fn draw_of_a_pristine_session() {
    let p = Picker::new(names(&["Python", "Go"]), 4);
    let mut want = vec![DrawOp::ClearLine, DrawOp::ResetColor];
    want.extend(search_line("\rSearch templates: ", ""));
    for _ in 0..4 {
        want.extend(blank_row());
    }
    want.extend(tail());
    assert_eq!(draw(&p), want);
}

#[test]
fn draw_marks_the_row_under_the_cursor() {
    let mut p = Picker::new(names(&["Python", "Pycharm", "Node", "Go"]), 4);
    p.step(Event::TypeChar('p'));
    p.step(Event::TypeChar('y'));
    p.step(Event::MoveDown);
    let mut want = vec![DrawOp::ClearLine, DrawOp::ResetColor];
    want.extend(search_line("\rSearch templates: ", "py"));
    want.extend(plain_row("Python"));
    want.extend(marked_row("Pycharm"));
    want.extend(blank_row());
    want.extend(blank_row());
    want.extend(tail());
    assert_eq!(draw(&p), want);
}

#[test]
fn draw_shows_the_chosen_names_in_arrival_order() {
    let mut p = Picker::new(names(&["Python", "Pycharm", "Node", "Go"]), 2);
    for c in "node".chars() {
        p.step(Event::TypeChar(c));
    }
    p.step(Event::Commit);
    for c in "go".chars() {
        p.step(Event::TypeChar(c));
    }
    p.step(Event::Commit);
    p.step(Event::TypeChar('p'));
    let mut want = vec![
        DrawOp::ClearLine,
        DrawOp::ResetColor,
        DrawOp::MoveToPreviousLine,
        DrawOp::ClearLine,
        text("Selected templates: "),
        DrawOp::SetColor(Tint::Blue),
        text("Node, Go"),
        DrawOp::ResetColor,
        DrawOp::MoveToNextLine,
        DrawOp::ClearLine,
    ];
    want.extend(search_line("\rSearch additional templates: ", "p"));
    want.extend(marked_row("Python"));
    want.extend(plain_row("Pycharm"));
    want.extend(tail());
    assert_eq!(draw(&p), want);
}

#[test]
fn draw_always_paints_window_many_rows() {
    let mut p = Picker::new(names(&["aa", "ab", "ac", "ad", "ae", "af"]), 3);
    let rows = |ops: &Vec<DrawOp>| ops.iter().filter(|op| **op == text("\n")).count();
    assert_eq!(rows(&draw(&p)), 3);
    p.step(Event::TypeChar('a'));
    assert_eq!(rows(&draw(&p)), 3);
    p.step(Event::TypeChar('f'));
    assert_eq!(rows(&draw(&p)), 3);
}

#[test]
fn reserve_scrolls_in_the_region() {
    let ops = reserve(4).unwrap();
    let mut want: Vec<DrawOp> = Vec::new();
    for _ in 0..5 {
        want.push(text("\n"));
    }
    want.push(DrawOp::MoveUp(5));
    want.push(DrawOp::Flush);
    assert_eq!(ops, want);
    assert_eq!(reserve(0).unwrap(), vec![text("\n"), DrawOp::MoveUp(1), DrawOp::Flush]);
}

#[test]
fn reserve_refuses_a_window_too_tall() {
    assert_eq!(reserve(65535), None);
    assert_eq!(reserve(usize::MAX), None);
    assert_eq!(reserve(65534).unwrap().len(), 65537);
}

#[test]
fn request_url_joins_names_with_commas() {
    assert_eq!(request_url("https://host/api/", &names(&["Go", "Rust"])), "https://host/api//Go,Rust");
    assert_eq!(request_url("base", &names(&["Rust"])), "base/Rust");
    assert_eq!(request_url("base", &Vec::new()), "base/");
}

#[test]
fn strip_endings_removes_both_endings() {
    assert_eq!(strip_endings("Rust.gitignore"), Ok("Rust".to_string()));
    assert_eq!(strip_endings("Magento.patch"), Ok("Magento".to_string()));
    assert_eq!(strip_endings("Node"), Ok("Node".to_string()));
    assert_eq!(strip_endings("a.patch.gitignore"), Ok("a".to_string()));
    assert_eq!(strip_endings(""), Ok(String::new()));
}

#[test]
fn dedup_keeps_the_first_occurrence_of_each_name() {
    assert_eq!(dedup(&names(&["A", "A", "B", "A", "A", "A", "C"])), names(&["A", "B", "C"]));
    assert_eq!(dedup(&names(&["A", "B", "A"])), names(&["A", "B"]));
    assert_eq!(dedup(&names(&["b", "a", "c", "a", "b"])), names(&["b", "a", "c"]));
    assert_eq!(dedup(&names(&["Go", "go"])), names(&["Go", "go"]));
    assert_eq!(dedup(&Vec::new()), Vec::<String>::new());
    assert_eq!(dedup(&names(&["x"])), names(&["x"]));
}

#[test]
fn normalize_names_builds_the_catalog() {
    let files = names(&["Go.gitignore", "Magento.gitignore", "Magento.patch", "Rust.gitignore"]);
    assert_eq!(normalize_names(&files), Ok(names(&["Go", "Magento", "Rust"])));
    assert_eq!(normalize_names(&Vec::new()), Ok(Vec::new()));
}

#[test]
fn a_refused_pattern_makes_the_catalog_unavailable() {
    let refused = regex::Regex::new("(").unwrap_err();
    assert_eq!(name_from(Err(refused)), Err(CatalogUnavailable));
    assert_eq!(name_from(Ok("Go".to_string())), Ok("Go".to_string()));
}

#[test]
fn turn_applies_the_key_and_paints_the_new_state() {
    let mut p = Picker::new(names(&["Python", "Pycharm", "Node", "Go"]), 4);
    let first = open_session(&p);
    assert!(first.go_on);
    assert_eq!(first.frame, draw(&p));
    let t = turn(&mut p, Key::Char('g'), false);
    assert!(t.go_on);
    assert_eq!(p.query(), "g");
    assert_eq!(t.frame, draw(&p));
    let t = turn(&mut p, Key::Enter, false);
    assert!(t.go_on);
    assert_eq!(*p.chosen(), names(&["Go"]));
    let t = turn(&mut p, Key::Enter, false);
    assert!(!t.go_on);
    assert_eq!(p.outcome(), Outcome::Accept);
    assert_eq!(t.frame, draw(&p));
}

#[test]
fn turn_with_an_unmapped_key_ends_the_session() {
    let mut p = Picker::new(names(&["Python"]), 4);
    let t = turn(&mut p, Key::Other, false);
    assert!(!t.go_on);
    assert_eq!(p.outcome(), Outcome::Cancel);
    let mut q = Picker::new(names(&["Python"]), 4);
    let t = turn(&mut q, Key::Char('p'), true);
    assert!(!t.go_on);
    assert_eq!(q.outcome(), Outcome::Cancel);
    assert_eq!(q.query(), "");
}

#[test]
fn normalize_names_holds_no_name_twice() {
    let files = names(&["Go.gitignore", "Rust.gitignore", "Go.patch", "Node.gitignore", "Rust.patch"]);
    let catalog = normalize_names(&files).unwrap();
    assert_eq!(catalog, names(&["Go", "Rust", "Node"]));
    for i in 0..catalog.len() {
        for j in 0..i {
            assert_ne!(catalog[i], catalog[j]);
        }
    }
}
