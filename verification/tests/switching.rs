use clash_tray::commands::{
    choose_group, find_primary, pick_best_node, plan_quick_switch, primary_switch_target,
    quick_switch_target, set_group_now, QuickSwitchError,
};
use clash_tray::state::{GroupKind, GroupView, NodeView};

fn node(name: &str, country: &str, delay: Option<u32>, is_group: bool) -> NodeView {
    NodeView {
        name: name.to_string(),
        country: country.to_string(),
        kind: if is_group { "URLTest".to_string() } else { "Shadowsocks".to_string() },
        latest_delay: delay,
        is_group,
    }
}

fn group(name: &str, kind: GroupKind, members: Vec<NodeView>) -> GroupView {
    GroupView {
        name: name.to_string(),
        kind,
        now: None,
        now_country: None,
        now_delay: None,
        members,
        is_primary: false,
    }
}

fn groups() -> Vec<GroupView> {
    vec![
        group("GLOBAL", GroupKind::Selector, vec![node("HK-09", "HK", Some(1), false)]),
        group("AUTO", GroupKind::UrlTest, vec![node("JP-01", "JP", Some(5), false)]),
        group(
            "PROXY",
            GroupKind::Selector,
            vec![
                node("HK-03", "HK", Some(40), false),
                node("HK-02", "HK", Some(0), false),
                node("HK-01", "HK", Some(40), false),
                node("HK auto", "HK", Some(1), true),
                node("HK：剩余", "HK", Some(2), false),
                node("HK-04", "HK", None, false),
            ],
        ),
        group("MEDIA", GroupKind::Selector, vec![node("US-01", "US", Some(90), false)]),
    ]
}

#[test]
fn choose_group_prefers_primary_with_member() {
    let gs = groups();
    assert_eq!(choose_group(&gs, &Some("MEDIA".to_string()), "US"), Some(3));
    // primary has no JP member: fall back to the first plain selector with one
    assert_eq!(choose_group(&gs, &Some("MEDIA".to_string()), "HK"), Some(2));
    // GLOBAL and automatic groups are never the fallback
    assert_eq!(choose_group(&gs, &None, "JP"), None);
    assert_eq!(choose_group(&gs, &None, "HK"), Some(2));
}

#[test]
fn best_node_is_fastest_then_by_name() {
    let gs = groups();
    // HK-01 and HK-03 tie at 40 ms; the name breaks the tie. Zero and missing
    // delays rank last; groups and pseudo-nodes are skipped.
    assert_eq!(pick_best_node(&gs[2].members, "HK"), Some(2));
    assert_eq!(pick_best_node(&gs[2].members, "JP"), None);
}

#[test]
fn unmeasured_nodes_are_still_picked() {
    let ms = vec![node("HK-B", "HK", Some(0), false), node("HK-A", "HK", None, false)];
    assert_eq!(pick_best_node(&ms, "HK"), Some(1));
}

#[test]
fn plan_reports_both_failures() {
    let gs = groups();
    assert_eq!(plan_quick_switch(&gs, &None, "HK"), Ok((2, 2)));
    assert_eq!(plan_quick_switch(&gs, &None, "FR"), Err(QuickSwitchError::NoGroup));
    let only_pseudo = vec![group("P", GroupKind::Selector, vec![node("TW：x", "TW", Some(3), false)])];
    assert_eq!(plan_quick_switch(&only_pseudo, &None, "TW"), Err(QuickSwitchError::NoNode(0)));
}

#[test]
fn quick_switch_uppercases_the_country() {
    let gs = groups();
    assert_eq!(
        quick_switch_target(&gs, &None, "hk"),
        Ok(("PROXY".to_string(), "HK-01".to_string()))
    );
    assert_eq!(
        quick_switch_target(&gs, &None, "fr"),
        Err("No selector group has a node in FR".to_string())
    );
    let only_pseudo = vec![group("P", GroupKind::Selector, vec![node("TW：x", "TW", Some(3), false)])];
    assert_eq!(
        quick_switch_target(&only_pseudo, &None, "tw"),
        Err("No TW node found in group P".to_string())
    );
}

#[test]
fn primary_group_for_auto_select() {
    let gs = groups();
    assert_eq!(find_primary(&gs, &None), Some(2));
    assert_eq!(find_primary(&gs, &Some("AUTO".to_string())), Some(1));
    assert_eq!(find_primary(&gs, &Some("NOPE".to_string())), None);
    assert_eq!(primary_switch_target(&gs, &None), Ok("PROXY".to_string()));
    assert_eq!(
        primary_switch_target(&gs, &Some("NOPE".to_string())),
        Err("No primary selector group available".to_string())
    );
    let none: Vec<GroupView> = vec![group("GLOBAL", GroupKind::Selector, vec![])];
    assert!(primary_switch_target(&none, &None).is_err());
}

#[test]
fn optimistic_selection_update() {
    let mut gs = groups();
    set_group_now(&mut gs, "PROXY", "HK-01");
    assert_eq!(gs[2].now.as_deref(), Some("HK-01"));
    assert_eq!(gs[2].members.len(), 6);
    assert!(gs[3].now.is_none());
    set_group_now(&mut gs, "NOPE", "X");
    assert!(gs.iter().all(|g| g.name != "NOPE"));
}
