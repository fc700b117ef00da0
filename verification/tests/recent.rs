use browse::rad::RepoSummary;
use browse::recent::{filter, matches_query, record, record_at, RecentRepo, MAX_RECENT};

#[test]
fn recent_record_dedupes_and_mru() {
    let mut list = Vec::new();
    record(&mut list, "rad:z1", "alpha", "a");
    record(&mut list, "rad:z2", "beta", "b");
    record(&mut list, "rad:z1", "alpha", "a");
    assert_eq!(list.len(), 2);
    assert_eq!(list[0].rid, "rad:z1");
    assert_eq!(list[1].rid, "rad:z2");
}

#[test]
fn recent_record_caps_at_max() {
    let mut list = Vec::new();
    for i in 0..(MAX_RECENT + 5) {
        record(&mut list, &format!("rad:z{i}"), &format!("r{i}"), "");
    }
    assert_eq!(list.len(), MAX_RECENT);
    assert_eq!(list[0].rid, format!("rad:z{}", MAX_RECENT + 4));
}

#[test]
fn filter_matches_name_rid_description() {
    let list = vec![
        RecentRepo {
            rid: "rad:zabc".into(),
            name: "Browse".into(),
            description: "viewer".into(),
            opened_at: 1,
        },
        RecentRepo {
            rid: "rad:zxyz".into(),
            name: "Other".into(),
            description: "".into(),
            opened_at: 2,
        },
    ];
    assert_eq!(filter(&list, "browse").len(), 1);
    assert_eq!(filter(&list, "zxyz").len(), 1);
    assert_eq!(filter(&list, "viewer").len(), 1);
    assert_eq!(filter(&list, "").len(), 2);
    assert!(filter(&list, "nope").is_empty());
}

#[test]
fn filter_trims_and_lowercases_the_query() {
    let list = vec![RecentRepo {
        rid: "rad:zabc".into(),
        name: "Browse".into(),
        description: String::new(),
        opened_at: 0,
    }];
    assert_eq!(filter(&list, "  BROWSE \n").len(), 1);
}

#[test]
fn matches_query_uses_lowercased_fields() {
    assert!(matches_query("Heartwood", "rad:zQ", "", "heart"));
    assert!(matches_query("x", "rad:zQ", "", "zq"));
    assert!(!matches_query("x", "rad:zQ", "", "zQ"));
    assert!(matches_query("x", "y", "", ""));
}

#[test]
fn record_stamps_the_entry_and_keeps_fields() {
    let mut list = Vec::new();
    record(&mut list, "rad:z9", "nine", "the ninth");
    assert_eq!(list[0].name, "nine");
    assert_eq!(list[0].description, "the ninth");
    assert!(list[0].opened_at > 0);
    let summary: RepoSummary = (&list[0]).into();
    assert_eq!(summary.rid, "rad:z9");
    assert_eq!(summary.name, "nine");
}

#[test]
fn recording_at_a_time_stamps_the_front_entry() {
    let mut list = Vec::new();
    record_at(&mut list, "rad:z1", "alpha", "a", 100);
    record_at(&mut list, "rad:z2", "beta", "b", 200);
    record_at(&mut list, "rad:z1", "alpha", "a", 300);
    assert_eq!(list.len(), 2);
    assert_eq!((list[0].rid.as_str(), list[0].opened_at), ("rad:z1", 300));
    assert_eq!((list[1].rid.as_str(), list[1].opened_at), ("rad:z2", 200));
}
