use arc_handles::group::{group_records, records_for_user, UserRecord};

fn rec(user_id: u128, data: &str) -> UserRecord {
    UserRecord { user_id, data: String::from(data) }
}

#[test]
fn groups_keep_first_appearance_order() {
    let recs = vec![rec(3, "a"), rec(1, "b"), rec(3, "c"), rec(2, "d"), rec(1, "e")];
    let gs = group_records(recs);
    assert_eq!(gs.len(), 3);
    assert_eq!(gs[0].user_id, 3);
    assert_eq!(gs[0].records.len(), 2);
    assert_eq!(gs[0].records[0].data.as_str(), "a");
    assert_eq!(gs[0].records[1].data.as_str(), "c");
    assert_eq!(gs[1].user_id, 1);
    assert_eq!(gs[1].records.len(), 2);
    assert_eq!(gs[1].records[1].data.as_str(), "e");
    assert_eq!(gs[2].user_id, 2);
    assert_eq!(gs[2].records.len(), 1);
    assert_eq!(gs[2].records[0].data.as_str(), "d");
}

#[test]
fn no_records_no_groups() {
    let gs = group_records(Vec::new());
    assert!(gs.is_empty());
}

#[test]
fn records_for_user_picks_one_bucket() {
    let recs = vec![rec(9, "x"), rec(5, "y"), rec(9, "z")];
    let r = records_for_user(recs, 9);
    assert_eq!(r.len(), 2);
    assert_eq!(r[0].data.as_str(), "x");
    assert_eq!(r[1].data.as_str(), "z");
}

#[test]
fn records_for_absent_user_are_empty() {
    let recs = vec![rec(9, "x")];
    assert!(records_for_user(recs, 4).is_empty());
}
