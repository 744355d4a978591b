//! The snapshot of the controller that the app shows.
use vstd::prelude::*;

use crate::clash::types::opt_str_view;
use crate::events::{AutoSwitch, AutoSwitchModel};
use crate::settings::clone_opt_string;

verus! {

#[derive(Debug, Clone, Copy, PartialEq, Eq, Structural)]
pub enum ConnectionState {
    Connected,
    Degraded,
    Lost,
}

#[derive(Debug, Clone, Copy, PartialEq, Eq, Structural)]
pub enum GroupKind {
    Selector,
    UrlTest,
    Fallback,
    LoadBalance,
    Relay,
}

/// A member of a group.
#[derive(Debug, Clone)]
pub struct NodeView {
    pub name: String,
    pub country: String,
    pub kind: String,
    pub latest_delay: Option<u32>,
    pub is_group: bool,
}

pub struct NodeModel {
    pub name: Seq<char>,
    pub country: Seq<char>,
    pub kind: Seq<char>,
    pub latest_delay: Option<u32>,
    pub is_group: bool,
}

impl View for NodeView {
    type V = NodeModel;

    open spec fn view(&self) -> NodeModel {
        NodeModel {
            name: self.name@,
            country: self.country@,
            kind: self.kind@,
            latest_delay: self.latest_delay,
            is_group: self.is_group,
        }
    }
}

/// A proxy group with its members.
#[derive(Debug, Clone)]
pub struct GroupView {
    pub name: String,
    pub kind: GroupKind,
    pub now: Option<String>,
    pub now_country: Option<String>,
    pub now_delay: Option<u32>,
    pub members: Vec<NodeView>,
    pub is_primary: bool,
}

pub struct GroupModel {
    pub name: Seq<char>,
    pub kind: GroupKind,
    pub now: Option<Seq<char>>,
    pub now_country: Option<Seq<char>>,
    pub now_delay: Option<u32>,
    pub members: Seq<NodeModel>,
    pub is_primary: bool,
}

pub open spec fn nodes_view(v: Seq<NodeView>) -> Seq<NodeModel> {
    v.map_values(|n: NodeView| n@)
}

pub open spec fn groups_view(v: Seq<GroupView>) -> Seq<GroupModel> {
    v.map_values(|g: GroupView| g@)
}

pub open spec fn switches_view(v: Seq<AutoSwitch>) -> Seq<AutoSwitchModel> {
    v.map_values(|a: AutoSwitch| a@)
}

impl View for GroupView {
    type V = GroupModel;

    open spec fn view(&self) -> GroupModel {
        GroupModel {
            name: self.name@,
            kind: self.kind,
            now: opt_str_view(self.now),
            now_country: opt_str_view(self.now_country),
            now_delay: self.now_delay,
            members: nodes_view(self.members@),
            is_primary: self.is_primary,
        }
    }
}

impl NodeView {
    /// A field-by-field copy.
    pub fn duplicate(&self) -> (r: Self)
        ensures
            r@ == self@,
    {
        NodeView {
            name: self.name.clone(),
            country: self.country.clone(),
            kind: self.kind.clone(),
            latest_delay: self.latest_delay,
            is_group: self.is_group,
        }
    }
}

impl GroupView {
    /// A field-by-field copy.
    pub fn duplicate(&self) -> (r: Self)
        ensures
            r@ == self@,
    {
        let mut members: Vec<NodeView> = Vec::new();
        let mut i: usize = 0;
        while i < self.members.len()
            invariant
                i <= self.members.len(),
                members@.len() == i,
                nodes_view(members@) == nodes_view(self.members@).take(i as int),
            decreases self.members.len() - i,
        {
            let d = self.members[i].duplicate();
            members.push(d);
            assert(members@[i as int]@ == self.members@[i as int]@);
            i = i + 1;
            assert(nodes_view(members@) =~= nodes_view(self.members@).take(i as int));
        }
        assert(nodes_view(self.members@).take(i as int) =~= nodes_view(self.members@));
        GroupView {
            name: self.name.clone(),
            kind: self.kind,
            now: clone_opt_string(&self.now),
            now_country: clone_opt_string(&self.now_country),
            now_delay: self.now_delay,
            members,
            is_primary: self.is_primary,
        }
    }
}

/// Traffic totals, speeds and connection count.
#[derive(Debug, Clone, Copy, PartialEq, Eq)]
pub struct TrafficStats {
    pub download_total: u64,
    pub upload_total: u64,
    /// Bytes per second averaged over the last poll interval.
    pub download_speed: u64,
    pub upload_speed: u64,
    pub connection_count: usize,
    /// The controller's memory use, where it reports one.
    pub memory: Option<u64>,
}

pub open spec fn zero_traffic() -> TrafficStats {
    TrafficStats {
        download_total: 0,
        upload_total: 0,
        download_speed: 0,
        upload_speed: 0,
        connection_count: 0,
        memory: None,
    }
}

impl Default for TrafficStats {
    fn default() -> (r: Self)
        ensures
            r == zero_traffic(),
    {
        TrafficStats {
            download_total: 0,
            upload_total: 0,
            download_speed: 0,
            upload_speed: 0,
            connection_count: 0,
            memory: None,
        }
    }
}

/// The subscription details read from the provider's pseudo-nodes:
/// 到期 (expiry), 剩余 (remaining quota), 套餐 (plan), 官网 (homepage),
/// 重置 (reset countdown).
#[derive(Debug, Clone)]
pub struct SubscriptionInfo {
    pub expiry: Option<String>,
    pub remaining: Option<String>,
    pub plan: Option<String>,
    pub homepage: Option<String>,
    pub reset: Option<String>,
}

pub struct SubscriptionModel {
    pub expiry: Option<Seq<char>>,
    pub remaining: Option<Seq<char>>,
    pub plan: Option<Seq<char>>,
    pub homepage: Option<Seq<char>>,
    pub reset: Option<Seq<char>>,
}

impl View for SubscriptionInfo {
    type V = SubscriptionModel;

    open spec fn view(&self) -> SubscriptionModel {
        SubscriptionModel {
            expiry: opt_str_view(self.expiry),
            remaining: opt_str_view(self.remaining),
            plan: opt_str_view(self.plan),
            homepage: opt_str_view(self.homepage),
            reset: opt_str_view(self.reset),
        }
    }
}

pub open spec fn empty_subscription() -> SubscriptionModel {
    SubscriptionModel { expiry: None, remaining: None, plan: None, homepage: None, reset: None }
}

impl Default for SubscriptionInfo {
    fn default() -> (r: Self)
        ensures
            r@ == empty_subscription(),
    {
        SubscriptionInfo { expiry: None, remaining: None, plan: None, homepage: None, reset: None }
    }
}

/// Everything the app knows about the controller after a poll.
#[derive(Debug, Clone)]
pub struct StateSnapshot {
    pub fetched_at: i64,
    pub connection: ConnectionState,
    pub groups: Vec<GroupView>,
    pub leaf_count: usize,
    pub recent_auto_switches: Vec<AutoSwitch>,
    pub traffic: TrafficStats,
    pub subscription: SubscriptionInfo,
}

pub struct SnapshotModel {
    pub fetched_at: i64,
    pub connection: ConnectionState,
    pub groups: Seq<GroupModel>,
    pub leaf_count: usize,
    pub recent_auto_switches: Seq<AutoSwitchModel>,
    pub traffic: TrafficStats,
    pub subscription: SubscriptionModel,
}

impl View for StateSnapshot {
    type V = SnapshotModel;

    open spec fn view(&self) -> SnapshotModel {
        SnapshotModel {
            fetched_at: self.fetched_at,
            connection: self.connection,
            groups: groups_view(self.groups@),
            leaf_count: self.leaf_count,
            recent_auto_switches: switches_view(self.recent_auto_switches@),
            traffic: self.traffic,
            subscription: self.subscription@,
        }
    }
}

/// The snapshot before the first poll: lost, with nothing in it.
pub open spec fn initial_snapshot() -> SnapshotModel {
    SnapshotModel {
        fetched_at: 0,
        connection: ConnectionState::Lost,
        groups: seq![],
        leaf_count: 0,
        recent_auto_switches: seq![],
        traffic: zero_traffic(),
        subscription: empty_subscription(),
    }
}

impl Default for StateSnapshot {
    fn default() -> (r: Self)
        ensures
            r@ == initial_snapshot(),
    {
        let r = StateSnapshot {
            fetched_at: 0,
            connection: ConnectionState::Lost,
            groups: Vec::new(),
            leaf_count: 0,
            recent_auto_switches: Vec::new(),
            traffic: TrafficStats::default(),
            subscription: SubscriptionInfo::default(),
        };
        assert(r@.groups =~= initial_snapshot().groups);
        assert(r@.recent_auto_switches =~= initial_snapshot().recent_auto_switches);
        r
    }
}

} // verus!
