use browse::order::sort_ranked;
use browse::view_api::JobRunRow;

fn run(id: &str, ts: u64) -> JobRunRow {
    JobRunRow { node: "n".into(), run_id: id.into(), status: "started".into(), log: String::new(), timestamp_secs: ts }
}

#[test]
fn sort_is_stable_and_complete() {
    let sorted = sort_ranked(vec![run("a", 1), run("b", 3), run("c", 1), run("d", 3), run("e", 2)]);
    let ids: Vec<&str> = sorted.iter().map(|r| r.run_id.as_str()).collect();
    assert_eq!(ids, vec!["b", "d", "e", "a", "c"]);
    assert!(sort_ranked(Vec::<JobRunRow>::new()).is_empty());
}

#[test]
fn strings_sort_by_code_point() {
    let v = vec!["b".to_string(), "B".into(), "a".into(), "\u{e9}".into(), "".into(), "ab".into()];
    assert_eq!(sort_ranked(v), vec!["", "B", "a", "ab", "b", "\u{e9}"]);
}
