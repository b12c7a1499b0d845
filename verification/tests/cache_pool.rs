use maiq_cache::cache::CachePool;
use maiq_cache::model::{Fetch, Group, Snapshot};
use maiq_cache::polling::Change;

fn snapshot(uid: &str, date: u64, groups: &[(&str, &str)]) -> Snapshot {
    Snapshot {
        uid: uid.to_string(),
        date,
        parsed_at: 0,
        groups: groups
            .iter()
            .map(|(name, guid)| Group { name: name.to_string(), uid: guid.to_string() })
            .collect(),
    }
}

fn universe(names: &[&str]) -> Vec<String> {
    names.iter().map(|n| n.to_string()).collect()
}

fn pool(names: &[&str], size: usize) -> CachePool {
    CachePool::new(universe(names), size, 3600, 600)
}

#[test]
fn dedup_by_date_keeps_most_recent() {
    let mut p = pool(&["g1"], 8);
    p.save(&snapshot("s1", 10, &[]), 100);
    p.save(&snapshot("s2", 10, &[]), 200);
    let all = p.collect_all();
    assert_eq!(all.len(), 1);
    assert_eq!(all[0].uid, "s2");
}

#[test]
fn save_same_uid_is_noop() {
    let mut p = pool(&["g1"], 8);
    p.save(&snapshot("s1", 10, &[]), 100);
    p.save(&snapshot("s1", 10, &[]), 200);
    let all = p.collect_all();
    assert_eq!(all.len(), 1);
    assert_eq!(all[0].uid, "s1");
}

#[test]
fn save_different_dates_keeps_both() {
    let mut p = pool(&["g1"], 8);
    p.save(&snapshot("s1", 10, &[]), 100);
    p.save(&snapshot("s2", 11, &[]), 200);
    assert_eq!(p.collect_all().len(), 2);
}

#[test]
fn purge_retains_current_evicts_past() {
    // Size bound 1, two old entries: one dated today, one dated yesterday.
    let mut p = pool(&["g1"], 1);
    let today: u64 = 20;
    p.save(&snapshot("old_today", today, &[]), 0);
    p.save(&snapshot("old_yesterday", today - 1, &[]), 0);
    // Both entries are far older than the age limit of 3600 seconds.
    p.purge(1_000_000, today);
    let all = p.collect_all();
    assert_eq!(all.len(), 1);
    assert_eq!(all[0].uid, "old_today");
}

#[test]
fn purge_within_size_bound_is_noop() {
    let mut p = pool(&["g1"], 2);
    let today: u64 = 20;
    p.save(&snapshot("a", today - 1, &[]), 0);
    p.save(&snapshot("b", today - 2, &[]), 0);
    p.purge(1_000_000, today);
    assert_eq!(p.collect_all().len(), 2);
}

#[test]
fn purge_keeps_fresh_past_entries() {
    let mut p = pool(&["g1"], 1);
    let today: u64 = 20;
    p.save(&snapshot("a", today - 1, &[]), 500);
    p.save(&snapshot("b", today - 2, &[]), 1000);
    // Age limit 3600: at time 2000 both entries are fresh.
    p.purge(2000, today);
    assert_eq!(p.collect_all().len(), 2);
}

#[test]
fn latest_prefers_most_recently_inserted() {
    let mut p = pool(&["g1"], 8);
    let today: u64 = 20;
    p.save(&snapshot("today_snap", today, &[]), 100);
    p.save(&snapshot("next_snap", today + 1, &[]), 200);
    let t = p.latest(Fetch::Today, today).expect("today snapshot cached");
    assert_eq!(t.uid, "today_snap");
    let n = p.latest(Fetch::Next, today).expect("next snapshot cached");
    assert_eq!(n.uid, "next_snap");
    assert!(p.latest(Fetch::Next, today + 5).is_none());
}

#[test]
fn by_uid_lookup() {
    let mut p = pool(&["g1"], 8);
    p.save(&snapshot("s1", 10, &[]), 100);
    p.save(&snapshot("s2", 11, &[]), 200);
    assert_eq!(p.by_uid("s2").expect("cached").uid, "s2");
    assert!(p.by_uid("missing").is_none());
}

#[test]
fn end_to_end_three_refreshes() {
    let today: u64 = 20;
    let mut p = pool(&["g1"], 8);

    // First refresh: producer returns s1 carrying u1 for g1.
    let s1 = snapshot("s1", today, &[("g1", "u1")]);
    p.update_tick(Some(&s1), None, 1000, today);
    let all = p.collect_all();
    assert_eq!(all.len(), 1);
    assert_eq!(all[0].uid, "s1");
    assert_eq!(p.poll().today.change_for("g1"), Change::New("u1".to_string()));

    // Second refresh: s2, same date, different content for g1.
    let s2 = snapshot("s2", today, &[("g1", "u2")]);
    p.update_tick(Some(&s2), None, 2000, today);
    let all = p.collect_all();
    assert_eq!(all.len(), 1);
    assert_eq!(all[0].uid, "s2");
    assert_eq!(p.poll().today.change_for("g1"), Change::Update(Some("u2".to_string())));

    // Third refresh: the identical s2 again.
    p.update_tick(Some(&s2), None, 3000, today);
    assert_eq!(p.poll().today.change_for("g1"), Change::Same(Some("u2".to_string())));
}

#[test]
fn update_tick_schedules_next_refresh() {
    let mut p = CachePool::new(universe(&["g1"]), 8, 3600, 600);
    p.update_tick(None, None, 1000, 20);
    // Interval 600 plus the safety margin of 5 seconds.
    assert_eq!(p.poll().next_update, 1605);
}

#[test]
fn update_tick_failed_producer_leaves_cache() {
    let today: u64 = 20;
    let mut p = pool(&["g1"], 8);
    let s1 = snapshot("s1", today, &[("g1", "u1")]);
    p.update_tick(Some(&s1), None, 1000, today);
    // Both producers fail: the cache keeps serving, losses are reported.
    p.update_tick(None, None, 2000, today);
    assert_eq!(p.collect_all().len(), 1);
    assert_eq!(p.poll().today.change_for("g1"), Change::Update(None));
}

#[test]
fn reset_returns_every_group_to_none() {
    let today: u64 = 20;
    let u = &["g1", "g2"];
    let mut p = pool(u, 8);
    let s1 = snapshot("s1", today, &[("g1", "u1"), ("g2", "u2")]);
    p.update_tick(Some(&s1), Some(&s1), 1000, today);
    assert_eq!(p.poll().today.change_for("g1"), Change::New("u1".to_string()));
    p.reset();
    let poll = p.poll();
    for name in ["g1", "g2"] {
        assert_eq!(poll.today.change_for(name), Change::Unobserved);
        assert_eq!(poll.next.change_for(name), Change::Unobserved);
    }
    assert_eq!(poll.today.uid, None);
    assert_eq!(poll.next.uid, None);
    // Cached entries survive a reset.
    assert_eq!(p.collect_all().len(), 1);
}

#[test]
fn poll_reports_both_categories_independently() {
    let today: u64 = 20;
    let mut p = pool(&["g1"], 8);
    let st = snapshot("st", today, &[("g1", "a")]);
    let sn = snapshot("sn", today + 1, &[("g1", "b")]);
    p.update_tick(Some(&st), Some(&sn), 1000, today);
    let poll = p.poll();
    assert_eq!(poll.today.change_for("g1"), Change::New("a".to_string()));
    assert_eq!(poll.next.change_for("g1"), Change::New("b".to_string()));
    assert_eq!(poll.today.uid, Some("st".to_string()));
    assert_eq!(poll.next.uid, Some("sn".to_string()));
}
