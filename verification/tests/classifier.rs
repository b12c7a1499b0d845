use maiq_cache::model::{Group, Snapshot};
use maiq_cache::polling::{Change, SnapshotChanges};

fn snapshot(uid: &str, date: u64, groups: &[(&str, &str)]) -> Snapshot {
    Snapshot {
        uid: uid.to_string(),
        date,
        parsed_at: 0,
        groups: groups
            .iter()
            .map(|(name, guid)| Group { name: name.to_string(), uid: guid.to_string() })
            .collect(),
    }
}

fn universe(names: &[&str]) -> Vec<String> {
    names.iter().map(|n| n.to_string()).collect()
}

#[test]
fn classifier_deterministic() {
    let u = universe(&["g1", "g2"]);
    let prev = SnapshotChanges::initial(&u);
    let s = snapshot("s1", 10, &[("g1", "u1")]);
    let a = prev.distinct(&u, Some(&s));
    let b = prev.distinct(&u, Some(&s));
    assert_eq!(a.uid, b.uid);
    assert_eq!(a.change_for("g1"), b.change_for("g1"));
    assert_eq!(a.change_for("g2"), b.change_for("g2"));
}

#[test]
fn first_observation_is_new() {
    let u = universe(&["g1", "g2"]);
    let prev = SnapshotChanges::initial(&u);
    let s = snapshot("s1", 10, &[("g1", "u1")]);
    let r = prev.distinct(&u, Some(&s));
    assert_eq!(r.uid, Some("s1".to_string()));
    assert_eq!(r.change_for("g1"), Change::New("u1".to_string()));
    assert_eq!(r.change_for("g2"), Change::Same(None));
}

#[test]
fn same_collapse_repeats() {
    let u = universe(&["g1"]);
    let s = snapshot("s1", 10, &[("g1", "u1")]);
    let first = SnapshotChanges::initial(&u).distinct(&u, Some(&s));
    assert_eq!(first.change_for("g1"), Change::New("u1".to_string()));
    let second = first.distinct(&u, Some(&s));
    assert_eq!(second.change_for("g1"), Change::Same(Some("u1".to_string())));
    let third = second.distinct(&u, Some(&s));
    assert_eq!(third.change_for("g1"), Change::Same(Some("u1".to_string())));
}

#[test]
fn loss_detection() {
    let u = universe(&["g1"]);
    let s = snapshot("s1", 10, &[("g1", "A")]);
    let first = SnapshotChanges::initial(&u).distinct(&u, Some(&s));
    assert_eq!(first.change_for("g1"), Change::New("A".to_string()));
    let without = snapshot("s2", 10, &[]);
    let second = first.distinct(&u, Some(&without));
    assert_eq!(second.change_for("g1"), Change::Update(None));
}

#[test]
fn new_before_update() {
    let u = universe(&["g1"]);
    let sx = snapshot("s1", 10, &[("g1", "X")]);
    let first = SnapshotChanges::initial(&u).distinct(&u, Some(&sx));
    assert_eq!(first.change_for("g1"), Change::New("X".to_string()));
    let sy = snapshot("s2", 10, &[("g1", "Y")]);
    let second = first.distinct(&u, Some(&sy));
    assert_eq!(second.change_for("g1"), Change::Update(Some("Y".to_string())));
}

#[test]
fn absent_snapshot_keeps_uid_and_reports_losses() {
    let u = universe(&["g1", "g2"]);
    let s = snapshot("s1", 10, &[("g1", "u1")]);
    let first = SnapshotChanges::initial(&u).distinct(&u, Some(&s));
    let second = first.distinct(&u, None);
    assert_eq!(second.uid, Some("s1".to_string()));
    assert_eq!(second.change_for("g1"), Change::Update(None));
    assert_eq!(second.change_for("g2"), Change::Same(None));
}

#[test]
fn vanished_then_still_absent_stays_same_none() {
    let u = universe(&["g1"]);
    let s = snapshot("s1", 10, &[("g1", "u1")]);
    let first = SnapshotChanges::initial(&u).distinct(&u, Some(&s));
    let second = first.distinct(&u, None);
    assert_eq!(second.change_for("g1"), Change::Update(None));
    let third = second.distinct(&u, None);
    assert_eq!(third.change_for("g1"), Change::Same(None));
}

#[test]
fn unobserved_universe_starts_all_none() {
    let u = universe(&["a", "b", "c"]);
    let init = SnapshotChanges::initial(&u);
    assert_eq!(init.uid, None);
    assert_eq!(init.groups.len(), 3);
    for name in ["a", "b", "c"] {
        assert_eq!(init.change_for(name), Change::Unobserved);
    }
}

#[test]
fn change_uid_accessor() {
    assert_eq!(Change::New("x".to_string()).uid(), Some("x"));
    assert_eq!(Change::Update(Some("y".to_string())).uid(), Some("y"));
    assert_eq!(Change::Same(Some("z".to_string())).uid(), Some("z"));
    assert_eq!(Change::Update(None).uid(), None);
    assert_eq!(Change::Same(None).uid(), None);
    assert_eq!(Change::Unobserved.uid(), None);
}

#[test]
fn change_same_predicates() {
    let c = Change::New("x".to_string());
    assert!(!c.is_same());
    assert!(c.is_same_with("x"));
    assert!(!c.is_same_with("y"));
    assert!(!c.is_not_same_with("x"));
    assert!(c.is_not_same_with("y"));
    assert!(c.is_not_same("y"));
    assert!(!c.is_not_same("x"));
    let s = Change::Same(Some("x".to_string()));
    assert!(s.is_same());
    assert!(Change::Same(None).is_same());
    assert!(!Change::Unobserved.is_same());
    assert!(!Change::Unobserved.is_same_with("x"));
    assert!(!Change::Unobserved.is_not_same_with("x"));
}
