use lga::finder::{best_match, fuzzy_find, match_positions, prefix_find};

fn names(v: &[&str]) -> Vec<String> {
    v.iter().map(|s| s.to_string()).collect()
}

#[test]
fn fuzzy_prefers_leftmost_complete_match() {
    let entries = names(&["cab.txt", "abc.txt", "zzz.txt"]);
    assert_eq!(fuzzy_find("ab", &entries), Some(1));
}

#[test]
fn fuzzy_none_when_no_entry_matches() {
    let entries = names(&["zzz.txt", "yyy"]);
    assert_eq!(fuzzy_find("ab", &entries), None);
    assert_eq!(fuzzy_find("q", &Vec::new()), None);
}

#[test]
fn fuzzy_ignores_case() {
    let entries = names(&["zzz", "README.md"]);
    assert_eq!(fuzzy_find("rdm", &entries), Some(1));
    assert_eq!(fuzzy_find("RDM", &names(&["readme"])), Some(0));
}

#[test]
fn fuzzy_ties_go_to_first_listed() {
    let entries = names(&["xab", "yab", "ab"]);
    assert_eq!(fuzzy_find("ab", &entries), Some(2));
    let tied = names(&["ab1", "ab2"]);
    assert_eq!(fuzzy_find("ab", &tied), Some(0));
}

#[test]
fn fuzzy_query_char_absent_disqualifies() {
    let entries = names(&["aaaa", "abz"]);
    assert_eq!(fuzzy_find("az", &entries), Some(1));
}

#[test]
fn greedy_positions_are_leftmost_increasing() {
    let q: Vec<char> = "ab".chars().collect();
    let n: Vec<char> = "cab.txt".chars().collect();
    assert_eq!(match_positions(&q, &n), Some(vec![1, 2]));
    let n2: Vec<char> = "abc.txt".chars().collect();
    assert_eq!(match_positions(&q, &n2), Some(vec![0, 1]));
    let n3: Vec<char> = "ba".chars().collect();
    assert_eq!(match_positions(&q, &n3), None);
    let q2: Vec<char> = "aa".chars().collect();
    let n4: Vec<char> = "bab".chars().collect();
    assert_eq!(match_positions(&q2, &n4), None);
}

#[test]
fn best_match_is_case_sensitive_on_folded_input() {
    let entries = names(&["AB", "ab"]);
    assert_eq!(best_match("ab", &entries), Some(1));
}

#[test]
fn prefix_search_first_match_ignoring_case() {
    let entries = names(&["alpha", "Beta", "beta2"]);
    assert_eq!(prefix_find("be", &entries), Some(1));
    assert_eq!(prefix_find("BETA2", &entries), Some(2));
    assert_eq!(prefix_find("x", &entries), None);
    assert_eq!(prefix_find("", &entries), Some(0));
}
