use bashlings::puzzle::{
    expected_module, find_puzzle, join_path, module_matches_id, sort_by_id, Meta, Puzzle, Requires,
};

fn puzzle(id: &str, module: &str, dir: &str) -> Puzzle {
    Puzzle {
        meta: Meta {
            id: id.to_string(),
            title: format!("title of {id}"),
            module: module.to_string(),
            difficulty: "easy".to_string(),
            estimated_minutes: 5,
            hints: vec![],
            tags: vec![],
            requires: Requires { network: false, writable_paths: vec![] },
        },
        dir: dir.to_string(),
    }
}

#[test]
fn readme_and_solution_paths() {
    let p = puzzle("01-streams/03-redirect-stderr", "01-streams", "/repo/puzzles/01-streams/03");
    assert_eq!(p.readme_path(), "/repo/puzzles/01-streams/03/README.md");
    assert_eq!(p.solution_path(), "/repo/puzzles/01-streams/03/solution.sh");
    let q = puzzle("x", "x", "/repo/p/");
    assert_eq!(q.readme_path(), "/repo/p/README.md");
    let e = puzzle("x", "x", "");
    assert_eq!(e.solution_path(), "solution.sh");
}

#[test]
fn path_join_rules() {
    assert_eq!(join_path("a", "b"), "a/b");
    assert_eq!(join_path("a/", "b"), "a/b");
    assert_eq!(join_path("a", "/b"), "/b");
    assert_eq!(join_path("", "b"), "b");
}

#[test]
fn module_is_id_prefix() {
    assert_eq!(expected_module("01-streams/03-redirect-stderr"), "01-streams");
    assert_eq!(expected_module("solo"), "solo");
    assert_eq!(expected_module("/lead"), "");
    assert_eq!(expected_module(""), "");
    assert!(module_matches_id(&puzzle("01-streams/a", "01-streams", "d").meta));
    assert!(!module_matches_id(&puzzle("01-streams/a", "02-text", "d").meta));
}

#[test]
fn puzzles_sorted_by_id() {
    let ps = vec![
        puzzle("b/2", "b", "d1"),
        puzzle("a/9", "a", "d2"),
        puzzle("b/10", "b", "d3"),
        puzzle("a/1", "a", "d4"),
    ];
    let sorted = sort_by_id(ps);
    let ids: Vec<&str> = sorted.iter().map(|p| p.meta.id.as_str()).collect();
    assert_eq!(ids, vec!["a/1", "a/9", "b/10", "b/2"]);
}

#[test]
fn sort_is_stable_on_equal_ids() {
    let ps = vec![puzzle("x", "x", "first"), puzzle("a", "a", "a"), puzzle("x", "x", "second")];
    let sorted = sort_by_id(ps);
    let dirs: Vec<&str> = sorted.iter().map(|p| p.dir.as_str()).collect();
    assert_eq!(dirs, vec!["a", "first", "second"]);
}

#[test]
fn sort_by_code_point() {
    let ps = vec![puzzle("é", "é", "1"), puzzle("z", "z", "2"), puzzle("Z", "Z", "3"), puzzle("", "", "4")];
    let sorted = sort_by_id(ps);
    let ids: Vec<&str> = sorted.iter().map(|p| p.meta.id.as_str()).collect();
    assert_eq!(ids, vec!["", "Z", "z", "é"]);
}

#[test]
fn find_by_id() {
    let ps = vec![puzzle("a/1", "a", "d"), puzzle("a/2", "a", "d"), puzzle("a/2", "a", "e")];
    assert_eq!(find_puzzle(&ps, "a/2"), Some(1));
    assert_eq!(find_puzzle(&ps, "a/3"), None);
}
