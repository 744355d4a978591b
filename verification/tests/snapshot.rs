use clash_tray::clash::types::{ConnectionsResponse, DelayHistory, ProxiesResponse, Proxy};
use clash_tray::events::AutoSwitch;
use clash_tray::poll::{
    build_snapshot, build_snapshot_at, compute_traffic, detect_auto_switches,
    epoch_millis_as_i64, group_kind, now_millis, parse_subscription, push_auto_switch, sort_groups, traffic_deltas,
    push_auto_switches, PollState, MAX_FAILS, RING_CAP,
};
use clash_tray::settings::Settings;
use clash_tray::state::{ConnectionState, GroupKind, GroupView, StateSnapshot, TrafficStats};
use std::collections::VecDeque;

fn proxy(name: &str, ty: &str, now: Option<&str>, all: &[&str], delays: &[u32]) -> (String, Proxy) {
    (
        name.to_string(),
        Proxy {
            name: name.to_string(),
            proxy_type: ty.to_string(),
            now: now.map(|s| s.to_string()),
            all: all.iter().map(|s| s.to_string()).collect(),
            history: delays
                .iter()
                .map(|d| DelayHistory { time: "2026-05-16T12:34:56Z".to_string(), delay: *d })
                .collect(),
            udp: true,
        },
    )
}

fn sample() -> ProxiesResponse {
    ProxiesResponse {
        proxies: vec![
            proxy("GLOBAL", "Selector", Some("PROXY"), &["PROXY", "DIRECT"], &[]),
            proxy("HK-01", "Shadowsocks", None, &[], &[30, 18]),
            proxy("AUTO", "URLTest", Some("JP-01"), &["HK-01", "JP-01"], &[]),
            proxy("PROXY", "Selector", Some("HK-01"), &["AUTO", "HK-01", "JP-01", "GONE"], &[]),
            proxy("JP-01", "Vmess", None, &[], &[67]),
            proxy("DIRECT", "Direct", None, &[], &[]),
        ],
    }
}

fn settings_with_primary(p: Option<&str>) -> Settings {
    let mut s = Settings::default();
    s.primary_group = p.map(|x| x.to_string());
    s
}

fn names(gs: &[GroupView]) -> Vec<String> {
    gs.iter().map(|g| g.name.clone()).collect()
}

#[test]
fn snapshot_orders_primary_first_then_by_name() {
    let snap = build_snapshot_at(&sample(), &settings_with_primary(Some("PROXY")), vec![], 42);
    assert_eq!(names(&snap.groups), vec!["PROXY", "AUTO", "GLOBAL"]);
    assert!(snap.groups[0].is_primary);
    assert!(!snap.groups[1].is_primary);
    assert_eq!(snap.fetched_at, 42);
    assert_eq!(snap.connection, ConnectionState::Connected);
    assert_eq!(snap.traffic, TrafficStats::default());
    assert!(snap.subscription.expiry.is_none());
}

#[test]
fn snapshot_without_primary_sorts_by_name() {
    let snap = build_snapshot_at(&sample(), &settings_with_primary(None), vec![], 0);
    assert_eq!(names(&snap.groups), vec!["AUTO", "GLOBAL", "PROXY"]);
}

#[test]
fn snapshot_group_details() {
    let snap = build_snapshot_at(&sample(), &settings_with_primary(Some("PROXY")), vec![], 0);
    let g = &snap.groups[0];
    assert_eq!(g.kind, GroupKind::Selector);
    assert_eq!(g.now.as_deref(), Some("HK-01"));
    assert_eq!(g.now_country.as_deref(), Some("HK"));
    assert_eq!(g.now_delay, Some(18));
    // the missing member "GONE" is skipped
    let members: Vec<&str> = g.members.iter().map(|m| m.name.as_str()).collect();
    assert_eq!(members, vec!["AUTO", "HK-01", "JP-01"]);
    assert!(g.members[0].is_group);
    assert_eq!(g.members[0].kind, "URLTest");
    assert_eq!(g.members[1].country, "HK");
    assert_eq!(g.members[1].latest_delay, Some(18));
    assert_eq!(g.members[2].country, "JP");
    assert!(!g.members[2].is_group);
    let auto = &snap.groups[1];
    assert_eq!(auto.kind, GroupKind::UrlTest);
    assert_eq!(auto.now_delay, Some(67));
    assert_eq!(auto.now_country.as_deref(), Some("JP"));
}

#[test]
fn snapshot_groups_and_leaves_cover_proxies() {
    let p = sample();
    let snap = build_snapshot_at(&p, &settings_with_primary(None), vec![], 0);
    assert_eq!(snap.leaf_count, 3);
    assert_eq!(snap.groups.len() + snap.leaf_count, p.proxies.len());
}

#[test]
fn snapshot_keeps_recent_switches() {
    let recent = vec![switch("AUTO", "HK-01", "JP-01", 7)];
    let snap = build_snapshot_at(&sample(), &settings_with_primary(None), recent, 0);
    assert_eq!(snap.recent_auto_switches.len(), 1);
    assert_eq!(snap.recent_auto_switches[0].to, "JP-01");
}

#[test]
fn snapshot_overrides_apply_to_members() {
    let mut s = settings_with_primary(None);
    s.country_overrides.push(("JP-01".to_string(), "sg".to_string()));
    let snap = build_snapshot_at(&sample(), &s, vec![], 0);
    let auto = snap.groups.iter().find(|g| g.name == "AUTO").unwrap();
    assert_eq!(auto.now_country.as_deref(), Some("SG"));
    assert_eq!(auto.members[1].country, "SG");
}

#[test]
fn build_snapshot_stamps_current_time() {
    let before = now_millis();
    let snap = build_snapshot(&sample(), &settings_with_primary(None), vec![]);
    assert!(before > 1_600_000_000_000);
    assert!(snap.fetched_at >= before);
}

#[test]
fn epoch_millis_conversion() {
    assert_eq!(epoch_millis_as_i64(Some(1_700_000_000_123)), 1_700_000_000_123);
    assert_eq!(epoch_millis_as_i64(None), 0);
    assert_eq!(epoch_millis_as_i64(Some(1u128 << 63)), i64::MIN);
    assert_eq!(epoch_millis_as_i64(Some((1u128 << 64) + 5)), 5);
}

#[test]
fn sort_groups_empty_and_ties() {
    assert!(sort_groups(vec![]).is_empty());
    let snap = build_snapshot_at(&sample(), &settings_with_primary(Some("GLOBAL")), vec![], 0);
    assert_eq!(names(&snap.groups), vec!["GLOBAL", "AUTO", "PROXY"]);
}

#[test]
fn group_kind_mapping() {
    assert_eq!(group_kind("URLTest"), GroupKind::UrlTest);
    assert_eq!(group_kind("Fallback"), GroupKind::Fallback);
    assert_eq!(group_kind("LoadBalance"), GroupKind::LoadBalance);
    assert_eq!(group_kind("Relay"), GroupKind::Relay);
    assert_eq!(group_kind("Selector"), GroupKind::Selector);
    assert_eq!(group_kind("Whatever"), GroupKind::Selector);
}

#[test]
fn subscription_pseudo_nodes() {
    let p = ProxiesResponse {
        proxies: vec![
            proxy("到期：2026-01-01", "Direct", None, &[], &[]),
            proxy(" 剩余 ： 100 GB ", "Direct", None, &[], &[]),
            proxy("套餐：", "Direct", None, &[], &[]),
            proxy("官网：https://example.com", "Direct", None, &[], &[]),
            proxy("重置：3天", "Direct", None, &[], &[]),
            proxy("其他：x", "Direct", None, &[], &[]),
            proxy("到期：2027-02-02", "Direct", None, &[], &[]),
            proxy("HK-01", "Shadowsocks", None, &[], &[]),
        ],
    };
    let s = parse_subscription(&p);
    assert_eq!(s.expiry.as_deref(), Some("2027-02-02"));
    assert_eq!(s.remaining.as_deref(), Some("100 GB"));
    assert_eq!(s.plan, None);
    assert_eq!(s.homepage.as_deref(), Some("https://example.com"));
    assert_eq!(s.reset.as_deref(), Some("3天"));
}

#[test]
fn subscription_splits_at_first_colon() {
    let p = ProxiesResponse { proxies: vec![proxy("官网：a：b", "Direct", None, &[], &[])] };
    assert_eq!(parse_subscription(&p).homepage.as_deref(), Some("a：b"));
}

#[test]
fn traffic_deltas_saturate() {
    let prev = TrafficStats {
        download_total: 1000,
        upload_total: 50,
        download_speed: 5,
        upload_speed: 5,
        connection_count: 3,
        memory: Some(9),
    };
    let c = ConnectionsResponse { download_total: 400, upload_total: 80, memory: None, connection_count: 2 };
    assert_eq!(traffic_deltas(&c, &prev), (0, 30));
}

#[test]
fn traffic_with_and_without_connections() {
    let prev = TrafficStats {
        download_total: 1000,
        upload_total: 50,
        download_speed: 5,
        upload_speed: 5,
        connection_count: 3,
        memory: Some(9),
    };
    let c = ConnectionsResponse { download_total: 3000, upload_total: 80, memory: None, connection_count: 2 };
    let t = compute_traffic(Some(c), &prev, 1000, 15);
    assert_eq!(t.download_total, 3000);
    assert_eq!(t.download_speed, 1000);
    assert_eq!(t.upload_speed, 15);
    assert_eq!(t.connection_count, 2);
    assert_eq!(t.memory, None);
    let kept = compute_traffic(None, &prev, 1000, 15);
    assert_eq!(kept.download_total, 1000);
    assert_eq!(kept.upload_total, 50);
    assert_eq!(kept.download_speed, 0);
    assert_eq!(kept.upload_speed, 0);
    assert_eq!(kept.connection_count, 3);
    assert_eq!(kept.memory, Some(9));
}

fn switch(group: &str, from: &str, to: &str, at: i64) -> AutoSwitch {
    AutoSwitch {
        group: group.to_string(),
        from: from.to_string(),
        to: to.to_string(),
        from_country: "HK".to_string(),
        to_country: "JP".to_string(),
        at,
    }
}

fn snapshot_with(auto_now: &str, proxy_now: &str, global_now: &str) -> StateSnapshot {
    let p = ProxiesResponse {
        proxies: vec![
            proxy("AUTO", "URLTest", Some(auto_now), &["HK-01", "JP-01"], &[]),
            proxy("PROXY", "Selector", Some(proxy_now), &["HK-01", "JP-01"], &[]),
            proxy("GLOBAL", "Selector", Some(global_now), &["HK-01", "JP-01"], &[]),
            proxy("CHAIN", "Relay", Some(auto_now), &["HK-01", "JP-01"], &[]),
            proxy("HK-01", "Shadowsocks", None, &[], &[]),
            proxy("JP-01", "Shadowsocks", None, &[], &[]),
        ],
    };
    build_snapshot_at(&p, &settings_with_primary(None), vec![], 0)
}

#[test]
fn detects_auto_group_switch() {
    let prev = snapshot_with("HK-01", "HK-01", "HK-01");
    let next = snapshot_with("JP-01", "HK-01", "JP-01");
    let ev = detect_auto_switches(&prev, &next, &vec![], 99);
    assert_eq!(ev.len(), 1);
    assert_eq!(ev[0].group, "AUTO");
    assert_eq!(ev[0].from, "HK-01");
    assert_eq!(ev[0].to, "JP-01");
    assert_eq!(ev[0].from_country, "HK");
    assert_eq!(ev[0].to_country, "JP");
    assert_eq!(ev[0].at, 99);
}

#[test]
fn detects_selector_switch_but_not_global() {
    let prev = snapshot_with("HK-01", "HK-01", "HK-01");
    let next = snapshot_with("HK-01", "JP-01", "JP-01");
    let ev = detect_auto_switches(&prev, &next, &vec![], 0);
    assert_eq!(ev.len(), 1);
    assert_eq!(ev[0].group, "PROXY");
}

#[test]
fn manual_switch_within_grace_is_not_reported() {
    let prev = snapshot_with("HK-01", "HK-01", "HK-01");
    let next = snapshot_with("JP-01", "HK-01", "HK-01");
    let recent = vec![("AUTO".to_string(), 2999u128)];
    assert!(detect_auto_switches(&prev, &next, &recent, 0).is_empty());
    let old = vec![("AUTO".to_string(), 3000u128)];
    assert_eq!(detect_auto_switches(&prev, &next, &old, 0).len(), 1);
}

#[test]
fn unchanged_snapshot_reports_nothing() {
    let s = snapshot_with("HK-01", "JP-01", "HK-01");
    assert!(detect_auto_switches(&s, &s, &vec![], 0).is_empty());
}

#[test]
fn ring_keeps_the_latest_twenty() {
    let mut ring: VecDeque<AutoSwitch> = VecDeque::new();
    for i in 0..25 {
        push_auto_switch(&mut ring, switch("AUTO", "A", "B", i));
        assert!(ring.len() <= RING_CAP);
    }
    assert_eq!(ring.len(), 20);
    assert_eq!(ring.front().unwrap().at, 5);
    assert_eq!(ring.back().unwrap().at, 24);
}

#[test]
fn ring_keeps_order_of_last_pushes() {
    let mut ring: VecDeque<AutoSwitch> = VecDeque::new();
    for i in 0..7 {
        push_auto_switch(&mut ring, switch("AUTO", "A", "B", i));
    }
    let ats: Vec<i64> = ring.iter().map(|e| e.at).collect();
    assert_eq!(ats, (0..7).collect::<Vec<i64>>());
    for i in 7..43 {
        push_auto_switch(&mut ring, switch("AUTO", "A", "B", i));
    }
    let ats: Vec<i64> = ring.iter().map(|e| e.at).collect();
    assert_eq!(ats, (23..43).collect::<Vec<i64>>());
}

#[test]
fn detection_only_after_an_earlier_success() {
    let mut s = PollState::new();
    assert!(s.fresh_baseline && !s.had_successful_poll);
    s.on_failure(true);
    assert!(s.fresh_baseline && !s.had_successful_poll);
    let first = s.on_success(false, true, ConnectionState::Connected);
    assert!(!first.detect_switches);
    assert!(!s.fresh_baseline && s.had_successful_poll);
    s.on_failure(true);
    assert!(!s.fresh_baseline && s.had_successful_poll);
    let second = s.on_success(false, true, ConnectionState::Connected);
    assert!(second.detect_switches);
    let after_loss = s.on_success(true, true, ConnectionState::Lost);
    assert!(!after_loss.detect_switches);
    let not_connected = s.on_success(false, true, ConnectionState::Lost);
    assert!(!not_connected.detect_switches);
}

#[test]
fn tick_events_pushed_in_order() {
    let mut ring: VecDeque<AutoSwitch> = VecDeque::new();
    for i in 0..15 {
        push_auto_switch(&mut ring, switch("AUTO", "A", "B", i));
    }
    let events: Vec<AutoSwitch> = (15..25).map(|i| switch("PROXY", "C", "D", i)).collect();
    push_auto_switches(&mut ring, events);
    let ats: Vec<i64> = ring.iter().map(|e| e.at).collect();
    assert_eq!(ats, (5..25).collect::<Vec<i64>>());
    assert_eq!(ring.back().unwrap().group, "PROXY");
    push_auto_switches(&mut ring, vec![]);
    assert_eq!(ring.len(), RING_CAP);
    assert_eq!(ring.front().unwrap().at, 5);
}

#[test]
fn lost_on_third_failure_only() {
    let mut s = PollState::new();
    assert!(!s.on_failure(true).mark_lost);
    assert!(!s.on_failure(true).mark_lost);
    let third = s.on_failure(true);
    assert!(third.mark_lost);
    assert!(third.notify_lost);
    assert_eq!(s.failure_count, MAX_FAILS);
    assert!(!s.on_failure(true).mark_lost);
    let mut quiet = PollState::new();
    quiet.on_failure(false);
    quiet.on_failure(false);
    let a = quiet.on_failure(false);
    assert!(a.mark_lost && !a.notify_lost);
}

#[test]
fn first_success_never_notifies_restore() {
    let mut s = PollState::new();
    let a = s.on_success(true, true, ConnectionState::Lost);
    assert!(a.emit_restored);
    assert!(!a.notify_restored);
    assert!(!a.detect_switches);
    assert!(s.had_successful_poll);
    assert!(!s.fresh_baseline);
}

#[test]
fn reconnect_notifies_and_resets_baseline() {
    let mut s = PollState::new();
    s.on_success(true, true, ConnectionState::Lost);
    let a = s.on_success(false, true, ConnectionState::Connected);
    assert!(a.detect_switches);
    assert!(!a.emit_restored);
    s.on_failure(true);
    s.on_failure(true);
    s.on_failure(true);
    let back = s.on_success(true, true, ConnectionState::Lost);
    assert!(back.emit_restored && back.notify_restored && !back.detect_switches);
    assert_eq!(s.failure_count, 0);
    let next = s.on_success(false, true, ConnectionState::Connected);
    assert!(next.detect_switches);
    let off = s.on_success(true, false, ConnectionState::Lost);
    assert!(off.emit_restored && !off.notify_restored);
}

#[test]
fn own_switch_is_not_reported_next_poll() {
    let mut prev = snapshot_with("HK-01", "HK-01", "HK-01");
    clash_tray::commands::set_group_now(&mut prev.groups, "PROXY", "JP-01");
    let next = snapshot_with("HK-01", "JP-01", "HK-01");
    assert!(detect_auto_switches(&prev, &next, &vec![], 0).is_empty());
}
