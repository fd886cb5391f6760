use git_ignore::rank::{contains_name, rank, score_catalog, top_matches, RankedMatch};
use git_ignore::score::score;

fn names(list: &[&str]) -> Vec<String> {
    list.iter().map(|s| s.to_string()).collect()
}

fn hit(index: usize, score: isize) -> RankedMatch {
    RankedMatch { index, score }
}

#[test]
fn top_matches_orders_by_score_then_position() {
    let scores: Vec<isize> = vec![5, 0, 9, 5, -3, 7];
    assert_eq!(top_matches(&scores, 4), vec![hit(2, 9), hit(5, 7), hit(0, 5), hit(3, 5)]);
}

#[test]
fn top_matches_cuts_to_the_window() {
    let scores: Vec<isize> = vec![5, 0, 9, 5, -3, 7];
    assert_eq!(top_matches(&scores, 2), vec![hit(2, 9), hit(5, 7)]);
    assert_eq!(top_matches(&scores, 3), vec![hit(2, 9), hit(5, 7), hit(0, 5)]);
    assert_eq!(top_matches(&scores, 0), Vec::<RankedMatch>::new());
}

#[test]
fn top_matches_keeps_catalog_order_among_equals() {
    let scores: Vec<isize> = vec![3, 3, 3, 3, 3];
    assert_eq!(top_matches(&scores, 4), vec![hit(0, 3), hit(1, 3), hit(2, 3), hit(3, 3)]);
}

#[test]
fn top_matches_drops_what_does_not_match() {
    let scores: Vec<isize> = vec![0, -1, 0];
    assert_eq!(top_matches(&scores, 4), Vec::<RankedMatch>::new());
    assert_eq!(top_matches(&Vec::new(), 4), Vec::<RankedMatch>::new());
}

#[test]
fn top_matches_late_best_entry_comes_first() {
    let scores: Vec<isize> = vec![1, 2, 3, 4, 5, 6];
    assert_eq!(top_matches(&scores, 4), vec![hit(5, 6), hit(4, 5), hit(3, 4), hit(2, 3)]);
}

#[test]
fn top_matches_never_orders_a_higher_score_later() {
    let scores: Vec<isize> = vec![12, 40, 7, 40, 0, 99, 12, 3];
    let r = top_matches(&scores, 5);
    assert_eq!(r.len(), 5);
    for k in 1..r.len() {
        assert!(r[k - 1].score >= r[k].score);
    }
}

#[test]
fn score_is_the_matcher_score() {
    assert_eq!(score("scc", "SoccerCartoonController"), 172);
    assert_eq!(score("abc", "def"), 0);
    assert_eq!(score("", "test"), 0);
    assert_eq!(score("partial", "part"), 0);
    assert!(score("TTT", "The Two Towers") > score("ttt", "The Two Towers"));
}

#[test]
fn contains_name_compares_by_text() {
    let list = names(&["Go", "Rust"]);
    assert!(contains_name(&list, &"Rust".to_string()));
    assert!(!contains_name(&list, &"rust".to_string()));
    assert!(!contains_name(&Vec::new(), &"Go".to_string()));
}

#[test]
fn score_catalog_zeroes_the_excluded() {
    let catalog = names(&["Python", "Pycharm", "Node", "Go"]);
    let all = score_catalog(&catalog, "py", &Vec::new());
    assert_eq!(all.len(), 4);
    assert!(all[0] > 0 && all[1] > 0);
    assert_eq!(all[2], 0);
    assert_eq!(all[3], 0);
    let without = score_catalog(&catalog, "py", &names(&["Python"]));
    assert_eq!(without[0], 0);
    assert_eq!(without[1], all[1]);
    assert_eq!(score_catalog(&catalog, "", &Vec::new()), vec![0, 0, 0, 0]);
}

#[test]
fn rank_of_empty_query_is_empty() {
    let catalog = names(&["Python", "Pycharm", "Node", "Go"]);
    assert_eq!(rank(&catalog, "", &Vec::new(), 4), Vec::<RankedMatch>::new());
    assert_eq!(rank(&catalog, "", &names(&["Go"]), 4), Vec::<RankedMatch>::new());
    assert_eq!(rank(&Vec::new(), "", &Vec::new(), 4), Vec::<RankedMatch>::new());
}

#[test]
fn rank_puts_matches_first_and_leaves_out_the_rest() {
    let catalog = names(&["Python", "Pycharm", "Node", "Go"]);
    let r = rank(&catalog, "py", &Vec::new(), 4);
    let shown: Vec<&str> = r.iter().map(|m| catalog[m.index].as_str()).collect();
    assert_eq!(shown, vec!["Python", "Pycharm"]);
    assert_eq!(r[0].score, score("py", "Python"));
    assert_eq!(r[1].score, score("py", "Pycharm"));
}

#[test]
fn rank_leaves_out_excluded_names() {
    let catalog = names(&["Python", "Pycharm", "Node", "Go"]);
    let r = rank(&catalog, "go", &names(&["Go"]), 4);
    assert!(r.iter().all(|m| catalog[m.index] != "Go"));
    let open = rank(&catalog, "go", &Vec::new(), 4);
    assert!(open.iter().any(|m| catalog[m.index] == "Go"));
}

#[test]
fn rank_respects_the_window() {
    let catalog = names(&["aa", "ab", "ac", "ad", "ae", "af"]);
    assert_eq!(rank(&catalog, "a", &Vec::new(), 4).len(), 4);
    assert_eq!(rank(&catalog, "a", &Vec::new(), 2).len(), 2);
    assert_eq!(rank(&catalog, "a", &Vec::new(), 10).len(), 6);
}
