use browse::args::{parse_args, rid_from_arg};
use browse::rad::RepoView;
use browse::smoke::{paths_dump, preview, view_dump};
use browse::view_api::{CommitRow, FileRow, JobRow};

#[test]
fn rid_arguments() {
    assert_eq!(rid_from_arg(Some("rad:z3g")), Some("rad:z3g".to_string()));
    assert_eq!(rid_from_arg(Some("z3g")), Some("rad:z3g".to_string()));
    assert_eq!(rid_from_arg(Some("--help")), None);
    assert_eq!(rid_from_arg(None), None);
    let args = vec!["--smoke".to_string(), "z9".to_string()];
    assert_eq!(parse_args(&args), (true, Some("rad:z9".to_string())));
    assert_eq!(parse_args(&["rad:zA".to_string()]), (false, Some("rad:zA".to_string())));
    assert_eq!(parse_args(&[]), (false, None));
    assert_eq!(parse_args(&["--smoke".to_string()]), (true, None));
}

#[test]
fn previews_cut_by_characters() {
    assert_eq!(preview("h\u{e9}llo", 2), "h\u{e9}");
    assert_eq!(preview("ab", 10), "ab");
}

#[test]
fn dump_of_a_view() {
    let view = RepoView {
        rid: "rad:z1".into(),
        name: "demo".into(),
        description: "d".into(),
        head: "abcd".into(),
        head_oid: "abcdef".into(),
        readme: String::new(),
        files: vec![
            FileRow { name: "src".into(), is_tree: true },
            FileRow { name: "a.rs".into(), is_tree: false },
        ],
        commits: vec![CommitRow {
            id: "c".into(),
            summary: "first".into(),
            short_id: "c0".into(),
            author: "ann".into(),
        }],
        patches: Vec::new(),
        issues: Vec::new(),
        jobs: vec![JobRow {
            id: "j".into(),
            short_id: "j0".into(),
            commit: "c".into(),
            short_commit: "c0".into(),
            status: "failed".into(),
            run_count: 2,
            node_count: 1,
            updated_secs: 3,
            runs: Vec::new(),
        }],
    };
    assert_eq!(
        view_dump(&view),
        vec![
            "rid:   rad:z1",
            "name:  demo",
            "desc:  d",
            "head:  abcd",
            "files: 2 entries",
            "  - src/",
            "  - a.rs",
            "commits: 1",
            "  c0  first \u{2014} ann",
            "patches: 0",
            "issues: 0",
            "jobs: 1",
            "  [failed] j0  commit c0 \u{2014} 2 run(s)",
        ]
    );
}

#[test]
fn paths_report_shows_six() {
    let paths: Vec<String> = (0..8).map(|i| format!("p{i}")).collect();
    let lines = paths_dump("c0", &paths);
    assert_eq!(lines.len(), 7);
    assert_eq!(lines[0], "commit c0 paths: 8");
    assert_eq!(lines[6], "    p5");
}
