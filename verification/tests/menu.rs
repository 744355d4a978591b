use clash_tray::clash::types::{ProxiesResponse, Proxy};
use clash_tray::notify::{
    auto_switch_notification, connection_lost_notification, connection_restored_notification,
};
use clash_tray::events::AutoSwitch;
use clash_tray::poll::build_snapshot_at;
use clash_tray::settings::Settings;
use clash_tray::state::{ConnectionState, GroupKind, StateSnapshot};
use clash_tray::tray::{
    info_for, info_item_label, menu_action, menu_inputs, popup_position_fallback,
    popup_position_near_tray, quick_switch_entries, signature, take_if_changed, tooltip_for, MenuAction,
    MenuInputs, QuickEntry,
};

fn p(name: &str, ty: &str, now: Option<&str>, all: &[&str]) -> (String, Proxy) {
    (
        name.to_string(),
        Proxy {
            name: name.to_string(),
            proxy_type: ty.to_string(),
            now: now.map(|s| s.to_string()),
            all: all.iter().map(|s| s.to_string()).collect(),
            history: vec![],
            udp: false,
        },
    )
}

fn snapshot(primary_now: &str) -> StateSnapshot {
    let r = ProxiesResponse {
        proxies: vec![
            p("PROXY", "Selector", Some(primary_now), &["AUTO", "FAIL", "HK-01", "JP-01"]),
            p("AUTO", "URLTest", Some("JP-01"), &["HK-01", "JP-01"]),
            p("FAIL", "Fallback", None, &["HK-01"]),
            p("HK-01", "Shadowsocks", None, &[]),
            p("JP-01", "Shadowsocks", None, &[]),
        ],
    };
    build_snapshot_at(&r, &Settings::default(), vec![], 0)
}

fn favs() -> Vec<String> {
    vec!["HK".to_string(), "JP".to_string()]
}

#[test]
fn menu_inputs_follow_primary() {
    let snap = snapshot("AUTO");
    let m = menu_inputs(&snap, favs(), &None);
    assert_eq!(
        m.auto_members,
        vec![(GroupKind::UrlTest, "AUTO".to_string()), (GroupKind::Fallback, "FAIL".to_string())]
    );
    assert_eq!(m.current_now.as_deref(), Some("AUTO"));
    assert_eq!(m.info_label, "AUTO → JP-01");
    assert_eq!(m.tooltip, "Clash Tray — AUTO");
    assert_eq!(info_item_label(&m), "Current: AUTO → JP-01");
}

#[test]
fn info_line_variants() {
    let snap = snapshot("FAIL");
    let m = menu_inputs(&snap, favs(), &None);
    assert_eq!(m.info_label, "FAIL → —");
    let snap = snapshot("HK-01");
    let m = menu_inputs(&snap, favs(), &None);
    assert_eq!(m.info_label, "HK-01");
    assert_eq!(m.current_country.as_deref(), Some("HK"));
    let m = menu_inputs(&snap, favs(), &Some("NOPE".to_string()));
    assert_eq!(m.info_label, "No primary group");
    assert_eq!(m.tooltip, "Clash Tray");
    let empty = StateSnapshot::default();
    assert_eq!(info_for(&empty, None), "Connecting…");
    assert_eq!(tooltip_for(&empty, None), "Clash Tray — disconnected");
    let mut degraded = snapshot("HK-01");
    degraded.connection = ConnectionState::Degraded;
    let proxy = degraded.groups.iter().find(|g| g.name == "PROXY").unwrap().clone();
    assert_eq!(tooltip_for(&degraded, Some(&proxy)), "Clash Tray — degraded");
    let mut g = proxy;
    g.now = None;
    assert_eq!(info_for(&degraded, Some(&g)), "PROXY: —");
}

#[test]
fn quick_entries_with_autos_and_favorites() {
    let snap = snapshot("AUTO");
    let m = menu_inputs(&snap, favs(), &None);
    let e = quick_switch_entries(&m);
    assert_eq!(e.len(), 5);
    match &e[0] {
        QuickEntry::Check { id, label, checked } => {
            assert_eq!(id, "auto:AUTO");
            assert_eq!(label, "Auto select — AUTO");
            assert!(*checked);
        }
        _ => panic!("expected a check item"),
    }
    match &e[1] {
        QuickEntry::Check { label, checked, .. } => {
            assert_eq!(label, "Failover — FAIL");
            assert!(!*checked);
        }
        _ => panic!("expected a check item"),
    }
    assert!(matches!(e[2], QuickEntry::Separator));
    match &e[3] {
        QuickEntry::Check { id, label, checked } => {
            assert_eq!(id, "quick:HK");
            assert_eq!(label, "HK — Hong Kong");
            assert!(!*checked);
        }
        _ => panic!("expected a check item"),
    }
}

#[test]
fn favourite_checked_when_leaf_selected() {
    let snap = snapshot("HK-01");
    let m = menu_inputs(&snap, favs(), &None);
    let e = quick_switch_entries(&m);
    match &e[3] {
        QuickEntry::Check { checked, .. } => assert!(*checked),
        _ => panic!("expected a check item"),
    }
    match &e[4] {
        QuickEntry::Check { label, checked, .. } => {
            assert_eq!(label, "JP — Japan");
            assert!(!*checked);
        }
        _ => panic!("expected a check item"),
    }
}

#[test]
fn empty_quick_menu_has_placeholder() {
    let m = MenuInputs {
        favorites: vec![],
        auto_members: vec![],
        current_now: None,
        current_country: None,
        info_label: "Connecting…".to_string(),
        tooltip: "Clash Tray — connecting…".to_string(),
    };
    let e = quick_switch_entries(&m);
    assert_eq!(e.len(), 1);
    assert!(matches!(e[0], QuickEntry::Placeholder));
}

#[test]
fn signature_text() {
    let snap = snapshot("AUTO");
    let m = menu_inputs(&snap, favs(), &None);
    assert_eq!(
        signature(&m),
        "info=AUTO → JP-01|tt=Clash Tray — AUTO|now=Some(\"AUTO\")|country=Some(\"XX\")|favs=HK,JP|autos=AUTO,FAIL"
    );
    let m2 = menu_inputs(&snapshot("HK-01"), favs(), &None);
    assert_ne!(signature(&m), signature(&m2));
}

#[test]
fn menu_ids_decode() {
    assert_eq!(menu_action("refresh"), MenuAction::Refresh);
    assert_eq!(menu_action("settings"), MenuAction::OpenSettings);
    assert_eq!(menu_action("quit"), MenuAction::Quit);
    assert_eq!(menu_action("quick:JP"), MenuAction::QuickSwitch("JP".to_string()));
    assert_eq!(menu_action("auto:Auto 选择"), MenuAction::AutoSelect("Auto 选择".to_string()));
    assert_eq!(menu_action("info"), MenuAction::Ignore);
    assert_eq!(menu_action("quick"), MenuAction::Ignore);
}

#[test]
fn menu_item_ids_round_trip() {
    let snap = snapshot("AUTO");
    let m = menu_inputs(&snap, favs(), &None);
    for e in quick_switch_entries(&m) {
        if let QuickEntry::Check { id, .. } = e {
            assert_ne!(menu_action(&id), MenuAction::Ignore);
        }
    }
}

#[test]
fn popup_positions() {
    assert_eq!(popup_position_near_tray(1800, 1040, 40, 40, 420, 640), (1610, 400));
    assert_eq!(popup_position_near_tray(1800, 10, 40, 40, 420, 640), (1610, 50));
    assert_eq!(popup_position_fallback(0, 0, 1920, 1080, 420, 640), (1484, 392));
}

#[test]
fn notification_texts() {
    let sw = AutoSwitch {
        group: "AUTO".to_string(),
        from: "HK-01".to_string(),
        to: "JP-01".to_string(),
        from_country: "HK".to_string(),
        to_country: "XX".to_string(),
        at: 0,
    };
    let n = auto_switch_notification(&sw);
    assert_eq!(n.title, "AUTO switched");
    assert_eq!(n.body, "🇭🇰 HK-01 → 🇽🇽 JP-01");
    let lost = connection_lost_notification("http://192.168.8.1:9090");
    assert_eq!(lost.title, "Clash unreachable");
    assert_eq!(lost.body, "http://192.168.8.1:9090 — check OpenClash on the router");
    let back = connection_restored_notification("http://h");
    assert_eq!(back.title, "Clash reconnected");
    assert_eq!(back.body, "Connection to http://h restored");
}

#[test]
fn rebuild_only_when_signature_changes() {
    let mut last = String::new();
    assert!(take_if_changed(&mut last, "a|b".to_string()));
    assert_eq!(last, "a|b");
    assert!(!take_if_changed(&mut last, "a|b".to_string()));
    assert_eq!(last, "a|b");
    assert!(take_if_changed(&mut last, "a|c".to_string()));
    assert_eq!(last, "a|c");
    assert!(take_if_changed(&mut last, String::new()));
    assert_eq!(last, "");
}
