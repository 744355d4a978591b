//! Turning a controller poll into a snapshot, and the poll loop's decisions.
use vstd::prelude::*;
use vstd::multiset::Multiset;

use crate::clash::types::{
    keys_distinct, opt_str_view, proxies_view, strings_view, ConnectionsResponse, ProxiesResponse, Proxy,
    ProxyModel,
};
use crate::country::{country_of, overrides_view, parse_country};
use crate::events::{AutoSwitch, AutoSwitchModel};
use crate::settings::{clone_opt_string, Settings, SettingsModel};
use crate::state::{
    empty_subscription, groups_view, nodes_view, switches_view, zero_traffic, ConnectionState,
    GroupKind, GroupModel, GroupView, NodeModel, NodeView, SnapshotModel, StateSnapshot,
    SubscriptionInfo, SubscriptionModel, TrafficStats,
};
use crate::text::{
    chars_of, find_char, string_of_pair, trim, trimmed_range, lemma_seq_lt_asymmetric, lemma_seq_lt_total,
    lemma_seq_lt_transitive, seq_lt, str_eq, str_lt,
};

verus! {

// ---------------------------------------------------------------------------
// Model of a snapshot
// ---------------------------------------------------------------------------

/// The proxy types that are groups rather than leaf nodes.
pub open spec fn is_group_type(t: Seq<char>) -> bool {
    t == "Selector"@ || t == "URLTest"@ || t == "Fallback"@ || t == "LoadBalance"@ || t
        == "Relay"@
}

/// The kind of a group of proxy type `t`; `Selector` for any other type.
pub open spec fn kind_of(t: Seq<char>) -> GroupKind {
    if t == "URLTest"@ {
        GroupKind::UrlTest
    } else if t == "Fallback"@ {
        GroupKind::Fallback
    } else if t == "LoadBalance"@ {
        GroupKind::LoadBalance
    } else if t == "Relay"@ {
        GroupKind::Relay
    } else {
        GroupKind::Selector
    }
}

/// The proxy listed under `key`.
pub open spec fn find_proxy(ps: Seq<(Seq<char>, ProxyModel)>, key: Seq<char>) -> Option<
    ProxyModel,
>
    decreases ps.len(),
{
    if ps.len() == 0 {
        None
    } else if ps[0].0 == key {
        Some(ps[0].1)
    } else {
        find_proxy(ps.drop_first(), key)
    }
}

/// The delay of the proxy's latest measurement.
pub open spec fn last_delay(p: ProxyModel) -> Option<u32> {
    if p.history.len() > 0 {
        Some(p.history.last().delay)
    } else {
        None
    }
}

pub open spec fn node_of(n: ProxyModel, ovr: Seq<(Seq<char>, Seq<char>)>) -> NodeModel {
    NodeModel {
        name: n.name,
        country: country_of(n.name, ovr),
        kind: n.proxy_type,
        latest_delay: last_delay(n),
        is_group: is_group_type(n.proxy_type),
    }
}

/// The members named in `all` that the proxy list holds, in order.
pub open spec fn members_of(
    ps: Seq<(Seq<char>, ProxyModel)>,
    all: Seq<Seq<char>>,
    ovr: Seq<(Seq<char>, Seq<char>)>,
) -> Seq<NodeModel>
    decreases all.len(),
{
    if all.len() == 0 {
        seq![]
    } else {
        let rest = members_of(ps, all.drop_last(), ovr);
        match find_proxy(ps, all.last()) {
            Some(n) => rest.push(node_of(n, ovr)),
            None => rest,
        }
    }
}

pub open spec fn group_of(
    ps: Seq<(Seq<char>, ProxyModel)>,
    g: ProxyModel,
    s: SettingsModel,
) -> GroupModel {
    GroupModel {
        name: g.name,
        kind: kind_of(g.proxy_type),
        now: g.now,
        now_country: match g.now {
            Some(n) => Some(country_of(n, s.country_overrides)),
            None => None,
        },
        now_delay: match g.now {
            Some(n) => match find_proxy(ps, n) {
                Some(p) => last_delay(p),
                None => None,
            },
            None => None,
        },
        members: members_of(ps, g.all, s.country_overrides),
        is_primary: s.primary_group == Some(g.name),
    }
}

/// The groups among the entries `es`, in order.
pub open spec fn groups_of(
    ps: Seq<(Seq<char>, ProxyModel)>,
    es: Seq<(Seq<char>, ProxyModel)>,
    s: SettingsModel,
) -> Seq<GroupModel>
    decreases es.len(),
{
    if es.len() == 0 {
        seq![]
    } else {
        let rest = groups_of(ps, es.drop_last(), s);
        if is_group_type(es.last().1.proxy_type) {
            rest.push(group_of(ps, es.last().1, s))
        } else {
            rest
        }
    }
}

/// How many of the entries are leaf nodes.
pub open spec fn leaf_count_of(es: Seq<(Seq<char>, ProxyModel)>) -> nat
    decreases es.len(),
{
    if es.len() == 0 {
        0
    } else {
        leaf_count_of(es.drop_last()) + if is_group_type(es.last().1.proxy_type) {
            0nat
        } else {
            1nat
        }
    }
}

/// Display order of groups: the primary group first, then by name.
pub open spec fn group_precedes(a: GroupModel, b: GroupModel) -> bool {
    (a.is_primary && !b.is_primary) || (a.is_primary == b.is_primary && seq_lt(a.name, b.name))
}

pub open spec fn groups_sorted(s: Seq<GroupModel>) -> bool {
    forall|i: int, j: int| 0 <= i < j < s.len() ==> !group_precedes(#[trigger] s[j], #[trigger] s[i])
}

/// The snapshot a successful poll of `p` yields at time `at`, before traffic
/// and subscription details are filled in: connected, the groups in display
/// order, the leaf count and the recent automatic switches.
pub open spec fn snapshot_of(
    p: Seq<(Seq<char>, ProxyModel)>,
    s: SettingsModel,
    recent: Seq<AutoSwitchModel>,
    at: i64,
    r: SnapshotModel,
) -> bool {
    &&& r.fetched_at == at
    &&& r.connection == ConnectionState::Connected
    &&& groups_sorted(r.groups)
    &&& r.groups.to_multiset() == groups_of(p, p, s).to_multiset()
    &&& r.leaf_count == leaf_count_of(p)
    &&& r.recent_auto_switches == recent
    &&& r.traffic == zero_traffic()
    &&& r.subscription == empty_subscription()
}

// ---------------------------------------------------------------------------
// Order lemmas
// ---------------------------------------------------------------------------

pub proof fn lemma_precedes_asymmetric(a: GroupModel, b: GroupModel)
    ensures
        !(group_precedes(a, b) && group_precedes(b, a)),
{
    lemma_seq_lt_asymmetric(a.name, b.name);
}

/// "Does not come after" is transitive.
pub proof fn lemma_not_precedes_transitive(a: GroupModel, b: GroupModel, c: GroupModel)
    requires
        !group_precedes(b, a),
        !group_precedes(c, b),
    ensures
        !group_precedes(c, a),
{
    if group_precedes(c, a) && a.is_primary == b.is_primary && b.is_primary == c.is_primary {
        lemma_seq_lt_total(a.name, b.name);
        lemma_seq_lt_total(b.name, c.name);
        lemma_seq_lt_asymmetric(a.name, c.name);
        if seq_lt(a.name, b.name) && seq_lt(b.name, c.name) {
            lemma_seq_lt_transitive(a.name, b.name, c.name);
        }
    }
}

// ---------------------------------------------------------------------------
// Building a snapshot
// ---------------------------------------------------------------------------

/// Whether `t` names a group type.
pub fn is_group_type_str(t: &str) -> (r: bool)
    ensures
        r == is_group_type(t@),
{
    str_eq(t, "Selector") || str_eq(t, "URLTest") || str_eq(t, "Fallback") || str_eq(
        t,
        "LoadBalance",
    ) || str_eq(t, "Relay")
}

/// The group kind of proxy type `t`.
pub fn group_kind(t: &str) -> (r: GroupKind)
    ensures
        r == kind_of(t@),
{
    if str_eq(t, "URLTest") {
        GroupKind::UrlTest
    } else if str_eq(t, "Fallback") {
        GroupKind::Fallback
    } else if str_eq(t, "LoadBalance") {
        GroupKind::LoadBalance
    } else if str_eq(t, "Relay") {
        GroupKind::Relay
    } else {
        GroupKind::Selector
    }
}

/// The index of the entry keyed `key`.
fn find_proxy_index(ps: &Vec<(String, Proxy)>, key: &str) -> (r: Option<usize>)
    ensures
        match r {
            Some(i) => i < ps.len() && find_proxy(proxies_view(ps@), key@) == Some(ps@[i as int].1@),
            None => find_proxy(proxies_view(ps@), key@) is None,
        },
        keys_distinct(proxies_view(ps@)) ==> forall|j: int|
            0 <= j < ps.len() && #[trigger] ps@[j].0@ == key@ ==> r == Some(j as usize),
{
    let ghost pv = proxies_view(ps@);
    let mut i: usize = 0;
    assert(pv.skip(0) =~= pv);
    while i < ps.len()
        invariant
            pv == proxies_view(ps@),
            pv.len() == ps.len(),
            i <= ps.len(),
            find_proxy(pv, key@) == find_proxy(pv.skip(i as int), key@),
            forall|j: int| 0 <= j < i ==> #[trigger] ps@[j].0@ != key@,
        decreases ps.len() - i,
    {
        assert(pv.skip(i as int).drop_first() =~= pv.skip(i + 1));
        if str_eq(ps[i].0.as_str(), key) {
            proof {
                if keys_distinct(pv) {
                    assert forall|j: int| 0 <= j < ps.len() && #[trigger] ps@[j].0@ == key@ implies j
                        == i by {
                        if j > i {
                            assert(pv[i as int].0 == pv[j].0);
                        }
                    }
                }
            }
            return Some(i);
        }
        i = i + 1;
    }
    None
}

fn last_delay_of(p: &Proxy) -> (r: Option<u32>)
    ensures
        r == last_delay(p@),
{
    let n = p.history.len();
    if n > 0 {
        Some(p.history[n - 1].delay)
    } else {
        None
    }
}

fn node_view_of(n: &Proxy, ovr: &Vec<(String, String)>) -> (r: NodeView)
    ensures
        r@ == node_of(n@, overrides_view(ovr@)),
{
    NodeView {
        name: n.name.clone(),
        country: parse_country(n.name.as_str(), ovr),
        kind: n.proxy_type.clone(),
        latest_delay: last_delay_of(n),
        is_group: is_group_type_str(n.proxy_type.as_str()),
    }
}

fn members_for(ps: &Vec<(String, Proxy)>, g: &Proxy, ovr: &Vec<(String, String)>) -> (r: Vec<
    NodeView,
>)
    ensures
        nodes_view(r@) == members_of(proxies_view(ps@), g@.all, overrides_view(ovr@)),
{
    let ghost pv = proxies_view(ps@);
    let ghost all = g@.all;
    let ghost ov = overrides_view(ovr@);
    let mut r: Vec<NodeView> = Vec::new();
    let mut i: usize = 0;
    assert(all.take(0) =~= seq![]);
    while i < g.all.len()
        invariant
            pv == proxies_view(ps@),
            all == g@.all,
            all == strings_view(g.all@),
            ov == overrides_view(ovr@),
            i <= g.all.len(),
            nodes_view(r@) == members_of(pv, all.take(i as int), ov),
        decreases g.all.len() - i,
    {
        assert(all.take(i + 1).drop_last() =~= all.take(i as int));
        assert(all.take(i + 1).last() == g.all@[i as int]@);
        match find_proxy_index(ps, g.all[i].as_str()) {
            Some(k) => {
                let n = node_view_of(&ps[k].1, ovr);
                r.push(n);
                assert(nodes_view(r@) =~= members_of(pv, all.take(i as int), ov).push(n@));
            },
            None => {},
        }
        i = i + 1;
    }
    assert(all.take(i as int) =~= all);
    r
}

fn group_view_of(ps: &Vec<(String, Proxy)>, g: &Proxy, settings: &Settings) -> (r: GroupView)
    ensures
        r@ == group_of(proxies_view(ps@), g@, settings@),
{
    let now_country = match &g.now {
        Some(name) => Some(parse_country(name.as_str(), &settings.country_overrides)),
        None => None,
    };
    let now_delay = match &g.now {
        Some(name) => match find_proxy_index(ps, name.as_str()) {
            Some(k) => last_delay_of(&ps[k].1),
            None => None,
        },
        None => None,
    };
    let is_primary = match &settings.primary_group {
        Some(p) => *p == g.name,
        None => false,
    };
    GroupView {
        name: g.name.clone(),
        kind: group_kind(g.proxy_type.as_str()),
        now: clone_opt_string(&g.now),
        now_country,
        now_delay,
        members: members_for(ps, g, &settings.country_overrides),
        is_primary,
    }
}

/// The groups of the poll in listing order.
fn unsorted_groups(ps: &Vec<(String, Proxy)>, settings: &Settings) -> (r: Vec<GroupView>)
    ensures
        groups_view(r@) == groups_of(proxies_view(ps@), proxies_view(ps@), settings@),
{
    let ghost pv = proxies_view(ps@);
    let mut r: Vec<GroupView> = Vec::new();
    let mut i: usize = 0;
    assert(pv.take(0) =~= seq![]);
    while i < ps.len()
        invariant
            pv == proxies_view(ps@),
            pv.len() == ps.len(),
            i <= ps.len(),
            groups_view(r@) == groups_of(pv, pv.take(i as int), settings@),
        decreases ps.len() - i,
    {
        assert(pv.take(i + 1).drop_last() =~= pv.take(i as int));
        assert(pv.take(i + 1).last() == pv[i as int]);
        let g = &ps[i].1;
        if is_group_type_str(g.proxy_type.as_str()) {
            let gv = group_view_of(ps, g, settings);
            r.push(gv);
            assert(groups_view(r@) =~= groups_of(pv, pv.take(i as int), settings@).push(gv@));
        }
        i = i + 1;
    }
    assert(pv.take(i as int) =~= pv);
    r
}

/// How many entries are leaf nodes.
fn count_leaves(ps: &Vec<(String, Proxy)>) -> (r: usize)
    ensures
        r == leaf_count_of(proxies_view(ps@)),
{
    let ghost pv = proxies_view(ps@);
    let mut n: usize = 0;
    let mut i: usize = 0;
    assert(pv.take(0) =~= seq![]);
    while i < ps.len()
        invariant
            pv == proxies_view(ps@),
            pv.len() == ps.len(),
            i <= ps.len(),
            n == leaf_count_of(pv.take(i as int)),
            n <= i,
        decreases ps.len() - i,
    {
        assert(pv.take(i + 1).drop_last() =~= pv.take(i as int));
        if !is_group_type_str(ps[i].1.proxy_type.as_str()) {
            n = n + 1;
        }
        i = i + 1;
    }
    assert(pv.take(i as int) =~= pv);
    n
}

/// Whether `a` is shown before `b`.
fn precedes(a: &GroupView, b: &GroupView) -> (r: bool)
    ensures
        r == group_precedes(a@, b@),
{
    (a.is_primary && !b.is_primary) || (a.is_primary == b.is_primary && str_lt(
        a.name.as_str(),
        b.name.as_str(),
    ))
}

/// `v` in display order: the primary group first, then by name.
pub fn sort_groups(v: Vec<GroupView>) -> (r: Vec<GroupView>)
    ensures
        groups_sorted(groups_view(r@)),
        groups_view(r@).to_multiset() == groups_view(v@).to_multiset(),
{
    let ghost orig = groups_view(v@);
    let mut rest = v;
    let mut out: Vec<GroupView> = Vec::new();
    proof {
        broadcast use vstd::multiset::group_multiset_axioms;
        assert(groups_view(out@).to_multiset() =~= Multiset::empty()) by {
            vstd::seq_lib::to_multiset_len(groups_view(out@));
            vstd::multiset::lemma_multiset_empty_len(groups_view(out@).to_multiset());
        }
        assert(groups_view(out@).to_multiset().add(groups_view(rest@).to_multiset()) =~= orig.to_multiset());
    }
    while rest.len() > 0
        invariant
            groups_sorted(groups_view(out@)),
            groups_view(out@).to_multiset().add(groups_view(rest@).to_multiset())
                == orig.to_multiset(),
        decreases rest.len(),
    {
        let ghost old_rest = rest@;
        let ghost old_out = out@;
        let x = rest.pop().unwrap();
        let ghost os = groups_view(old_out);
        // the first position whose group does not come before x
        let mut p: usize = 0;
        while p < out.len() && precedes(&out[p], &x)
            invariant
                p <= out.len(),
                out@ == old_out,
                os == groups_view(old_out),
                forall|k: int| 0 <= k < p ==> group_precedes(#[trigger] os[k], x@),
            decreases out.len() - p,
        {
            p = p + 1;
        }
        let ghost xv = x@;
        out.insert(p, x);
        proof {
            broadcast use vstd::multiset::group_multiset_axioms;
            let ns = groups_view(out@);
            assert(ns =~= os.insert(p as int, xv));
            assert(groups_view(old_rest) =~= groups_view(rest@).push(xv));
            vstd::seq_lib::to_multiset_insert(os, p as int, xv);
            vstd::seq_lib::to_multiset_build(groups_view(rest@), xv);
            assert(ns.to_multiset().add(groups_view(rest@).to_multiset()) =~= os.to_multiset().add(
                groups_view(old_rest).to_multiset(),
            ));
            assert forall|i: int, j: int| 0 <= i < j < ns.len() implies !group_precedes(
                #[trigger] ns[j],
                #[trigger] ns[i],
            ) by {
                if j < p {
                    assert(ns[i] == os[i] && ns[j] == os[j]);
                } else if j == p {
                    assert(ns[i] == os[i]);
                    lemma_precedes_asymmetric(os[i], xv);
                } else if i > p {
                    assert(ns[i] == os[i - 1] && ns[j] == os[j - 1]);
                } else if i == p {
                    assert(ns[j] == os[j - 1]);
                    assert(!group_precedes(os[p as int], xv));
                    if j - 1 > p {
                        lemma_not_precedes_transitive(xv, os[p as int], os[j - 1]);
                    }
                } else {
                    assert(ns[i] == os[i] && ns[j] == os[j - 1]);
                }
            }
        }
    }
    proof {
        broadcast use vstd::multiset::group_multiset_axioms;
        assert(groups_view(rest@) =~= Seq::<GroupModel>::empty());
        vstd::seq_lib::to_multiset_len(groups_view(rest@));
        vstd::multiset::lemma_multiset_empty_len(groups_view(rest@).to_multiset());
        assert(groups_view(rest@).to_multiset() =~= Multiset::empty());
        assert(groups_view(out@).to_multiset() =~= orig.to_multiset());
    }
    out
}

/// The snapshot of a successful poll of `p` taken at `fetched_at`: connected,
/// groups in display order, the leaf count and `recent` as the recent
/// automatic switches; traffic and subscription left empty.
pub fn build_snapshot_at(
    p: &ProxiesResponse,
    settings: &Settings,
    recent: Vec<AutoSwitch>,
    fetched_at: i64,
) -> (r: StateSnapshot)
    ensures
        snapshot_of(proxies_view(p.proxies@), settings@, switches_view(recent@), fetched_at, r@),
{
    let groups = unsorted_groups(&p.proxies, settings);
    let groups = sort_groups(groups);
    let leaf_count = count_leaves(&p.proxies);
    StateSnapshot {
        fetched_at,
        connection: ConnectionState::Connected,
        groups,
        leaf_count,
        recent_auto_switches: recent,
        traffic: TrafficStats::default(),
        subscription: SubscriptionInfo::default(),
    }
}

/// The system clock's time; opaque here.
#[verifier::external_type_specification]
#[verifier::external_body]
pub struct ExSystemTime(std::time::SystemTime);

/// Reads the system clock.
///
/// Trusted: calls `SystemTime::now`. The result depends on the clock, so
/// nothing is promised of it.
#[verifier::external_body]
fn system_now() -> std::time::SystemTime {
    std::time::SystemTime::now()
}

/// The time elapsed since the Unix epoch.
///
/// Trusted: calls `SystemTime::duration_since` with `UNIX_EPOCH`, turning its
/// error (a time before the epoch) into `None`. Nothing is promised of the
/// duration.
#[verifier::external_body]
fn since_unix_epoch(t: &std::time::SystemTime) -> Option<std::time::Duration> {
    t.duration_since(std::time::UNIX_EPOCH).ok()
}

/// The whole milliseconds of a duration.
///
/// Trusted: calls `Duration::as_millis`. The duration is opaque here, so
/// nothing is promised of the count.
#[verifier::external_body]
fn whole_millis(d: &std::time::Duration) -> u128 {
    d.as_millis()
}

/// Milliseconds since the Unix epoch by the system clock (truncated to
/// `i64`), or 0 when the clock reads a time before the epoch.
pub fn now_millis() -> i64 {
    let now = system_now();
    let ms = match since_unix_epoch(&now) {
        Some(d) => Some(whole_millis(&d)),
        None => None,
    };
    epoch_millis_as_i64(ms)
}

/// A reading in whole milliseconds since the Unix epoch as an `i64`: the
/// count truncated to 64 bits, or 0 where the clock stood before the epoch.
pub fn epoch_millis_as_i64(ms: Option<u128>) -> (r: i64)
    ensures
        r == (match ms {
            Some(m) => m as i64,
            None => 0i64,
        }),
{
    match ms {
        Some(m) => m as i64,
        None => 0,
    }
}

/// The snapshot of a successful poll of `p`, stamped with the current time.
pub fn build_snapshot(p: &ProxiesResponse, settings: &Settings, recent: Vec<AutoSwitch>) -> (r:
    StateSnapshot)
    ensures
        snapshot_of(proxies_view(p.proxies@), settings@, switches_view(recent@), r.fetched_at, r@),
{
    let at = now_millis();
    build_snapshot_at(p, settings, recent, at)
}

// ---------------------------------------------------------------------------
// Traffic
// ---------------------------------------------------------------------------

/// `a - b`, or 0 when `b` is larger (the controller restarted its counters).
pub open spec fn saturating_delta(a: u64, b: u64) -> u64 {
    if a >= b {
        (a - b) as u64
    } else {
        0
    }
}

/// How much was downloaded and uploaded since the previous totals.
pub fn traffic_deltas(c: &ConnectionsResponse, prev: &TrafficStats) -> (r: (u64, u64))
    ensures
        r.0 == saturating_delta(c.download_total, prev.download_total),
        r.1 == saturating_delta(c.upload_total, prev.upload_total),
{
    (c.download_total.saturating_sub(prev.download_total), c.upload_total.saturating_sub(
        prev.upload_total,
    ))
}

/// The traffic figures after a poll: with a `/connections` answer, its totals,
/// count and memory and the given speeds; without one, the previous totals,
/// count and memory and no speed.
pub open spec fn traffic_after(
    c: Option<ConnectionsResponse>,
    prev: TrafficStats,
    download_speed: u64,
    upload_speed: u64,
) -> TrafficStats {
    match c {
        Some(c) => TrafficStats {
            download_total: c.download_total,
            upload_total: c.upload_total,
            download_speed,
            upload_speed,
            connection_count: c.connection_count,
            memory: c.memory,
        },
        None => TrafficStats {
            download_total: prev.download_total,
            upload_total: prev.upload_total,
            download_speed: 0,
            upload_speed: 0,
            connection_count: prev.connection_count,
            memory: prev.memory,
        },
    }
}

/// The traffic figures after a poll; the speeds are those measured over the
/// poll interval from `traffic_deltas`.
pub fn compute_traffic(
    connections: Option<ConnectionsResponse>,
    prev: &TrafficStats,
    download_speed: u64,
    upload_speed: u64,
) -> (r: TrafficStats)
    ensures
        r == traffic_after(connections, *prev, download_speed, upload_speed),
{
    match connections {
        Some(c) => TrafficStats {
            download_total: c.download_total,
            upload_total: c.upload_total,
            download_speed,
            upload_speed,
            connection_count: c.connection_count,
            memory: c.memory,
        },
        None => TrafficStats {
            download_total: prev.download_total,
            upload_total: prev.upload_total,
            download_speed: 0,
            upload_speed: 0,
            connection_count: prev.connection_count,
            memory: prev.memory,
        },
    }
}

// ---------------------------------------------------------------------------
// Subscription pseudo-nodes
// ---------------------------------------------------------------------------

/// The fullwidth colon that separates key and value in a pseudo-node name.
pub open spec fn fullwidth_colon() -> char {
    '\u{ff1a}'
}

pub open spec fn first_index_of(s: Seq<char>, c: char, i: int) -> bool {
    0 <= i < s.len() && s[i] == c && forall|j: int| 0 <= j < i ==> s[j] != c
}

/// A pseudo-node name split at its first fullwidth colon, both halves trimmed.
pub open spec fn split_entry(name: Seq<char>) -> Option<(Seq<char>, Seq<char>)> {
    if exists|i: int| first_index_of(name, fullwidth_colon(), i) {
        let i = choose|i: int| first_index_of(name, fullwidth_colon(), i);
        Some((trim(name.take(i)), trim(name.skip(i + 1))))
    } else {
        None
    }
}

/// `info` with the entry named `name` applied: a non-empty value under one of
/// the keys 到期, 剩余, 套餐, 官网, 重置 replaces that field.
pub open spec fn apply_entry(info: SubscriptionModel, name: Seq<char>) -> SubscriptionModel {
    match split_entry(name) {
        Some((k, v)) => {
            if v.len() == 0 {
                info
            } else if k == "到期"@ {
                SubscriptionModel { expiry: Some(v), ..info }
            } else if k == "剩余"@ {
                SubscriptionModel { remaining: Some(v), ..info }
            } else if k == "套餐"@ {
                SubscriptionModel { plan: Some(v), ..info }
            } else if k == "官网"@ {
                SubscriptionModel { homepage: Some(v), ..info }
            } else if k == "重置"@ {
                SubscriptionModel { reset: Some(v), ..info }
            } else {
                info
            }
        },
        None => info,
    }
}

/// The subscription details of the entries, later entries overriding earlier ones.
pub open spec fn subscription_of(es: Seq<(Seq<char>, ProxyModel)>) -> SubscriptionModel
    decreases es.len(),
{
    if es.len() == 0 {
        empty_subscription()
    } else {
        apply_entry(subscription_of(es.drop_last()), es.last().1.name)
    }
}

/// Reads the subscription details from the pseudo-nodes of a poll.
pub fn parse_subscription(p: &ProxiesResponse) -> (r: SubscriptionInfo)
    ensures
        r@ == subscription_of(proxies_view(p.proxies@)),
{
    let ghost pv = proxies_view(p.proxies@);
    let mut s = SubscriptionInfo::default();
    let mut i: usize = 0;
    assert(pv.take(0) =~= seq![]);
    while i < p.proxies.len()
        invariant
            pv == proxies_view(p.proxies@),
            pv.len() == p.proxies.len(),
            i <= p.proxies.len(),
            s@ == subscription_of(pv.take(i as int)),
        decreases p.proxies.len() - i,
    {
        assert(pv.take(i + 1).drop_last() =~= pv.take(i as int));
        assert(pv.take(i + 1).last().1.name == p.proxies@[i as int].1.name@);
        let ghost name = p.proxies@[i as int].1.name@;
        let v = chars_of(p.proxies[i].1.name.as_str());
        match find_char(&v, '\u{ff1a}') {
            Some(k) => {
                proof {
                    assert(first_index_of(name, fullwidth_colon(), k as int));
                    let c = choose|c: int| first_index_of(name, fullwidth_colon(), c);
                    assert(first_index_of(name, fullwidth_colon(), c));
                    if c < k {
                        assert(v@[c] != fullwidth_colon());
                    }
                    if k < c {
                        assert(name[k as int] != fullwidth_colon());
                    }
                    assert(c == k);
                    assert(v@.subrange(0, k as int) =~= name.take(k as int));
                    assert(v@.subrange(k + 1, v.len() as int) =~= name.skip(k + 1));
                }
                let key = trimmed_range(&v, 0, k);
                let value = trimmed_range(&v, k + 1, v.len());
                if !value.as_str().is_empty() {
                    if str_eq(key.as_str(), "到期") {
                        s.expiry = Some(value);
                    } else if str_eq(key.as_str(), "剩余") {
                        s.remaining = Some(value);
                    } else if str_eq(key.as_str(), "套餐") {
                        s.plan = Some(value);
                    } else if str_eq(key.as_str(), "官网") {
                        s.homepage = Some(value);
                    } else if str_eq(key.as_str(), "重置") {
                        s.reset = Some(value);
                    }
                }
            },
            None => {
                assert forall|c: int| !first_index_of(name, fullwidth_colon(), c) by {
                    if 0 <= c < name.len() {
                        assert(v@[c] != fullwidth_colon());
                    }
                }
            },
        }
        i = i + 1;
    }
    assert(pv.take(i as int) =~= pv);
    s
}

// ---------------------------------------------------------------------------
// Automatic switches
// ---------------------------------------------------------------------------

/// How long after a manual switch a group's change is not reported, in milliseconds.
pub const GRACE_MS: u128 = 3000;

/// How many automatic switches are remembered.
pub const RING_CAP: usize = 20;

/// Groups whose selection changes are reported: the automatic kinds, and
/// selectors other than `GLOBAL`.
pub open spec fn is_watched(g: GroupModel) -> bool {
    ||| g.kind == GroupKind::UrlTest
    ||| g.kind == GroupKind::Fallback
    ||| g.kind == GroupKind::LoadBalance
    ||| (g.kind == GroupKind::Selector && g.name != "GLOBAL"@)
}

/// The first group named `name`.
pub open spec fn find_group(gs: Seq<GroupModel>, name: Seq<char>) -> Option<GroupModel>
    decreases gs.len(),
{
    if gs.len() == 0 {
        None
    } else if gs[0].name == name {
        Some(gs[0])
    } else {
        find_group(gs.drop_first(), name)
    }
}

/// Whether the first manual-switch record for `group` is younger than the grace period.
pub open spec fn recently_manual(manual: Seq<(Seq<char>, u128)>, group: Seq<char>) -> bool
    decreases manual.len(),
{
    if manual.len() == 0 {
        false
    } else if manual[0].0 == group {
        manual[0].1 < GRACE_MS
    } else {
        recently_manual(manual.drop_first(), group)
    }
}

pub open spec fn or_unknown(o: Option<Seq<char>>) -> Seq<char> {
    match o {
        Some(c) => c,
        None => seq!['X', 'X'],
    }
}

/// The switch to report for group `g` of the new snapshot, if any: a watched
/// group whose selection changed from one node to another, not right after
/// a manual switch.
pub open spec fn switch_for(
    prev: Seq<GroupModel>,
    g: GroupModel,
    manual: Seq<(Seq<char>, u128)>,
    at: i64,
) -> Option<AutoSwitchModel> {
    let pg = find_group(prev, g.name);
    let prev_now = match pg {
        Some(p) => p.now,
        None => None,
    };
    if !is_watched(g) || prev_now == g.now || g.now is None || prev_now is None || recently_manual(
        manual,
        g.name,
    ) {
        None
    } else {
        Some(
            AutoSwitchModel {
                group: g.name,
                from: prev_now->0,
                to: g.now->0,
                from_country: or_unknown(pg->0.now_country),
                to_country: or_unknown(g.now_country),
                at,
            },
        )
    }
}

/// The switches to report for the groups `next`, in order.
pub open spec fn switches_of(
    prev: Seq<GroupModel>,
    next: Seq<GroupModel>,
    manual: Seq<(Seq<char>, u128)>,
    at: i64,
) -> Seq<AutoSwitchModel>
    decreases next.len(),
{
    if next.len() == 0 {
        seq![]
    } else {
        let rest = switches_of(prev, next.drop_last(), manual, at);
        match switch_for(prev, next.last(), manual, at) {
            Some(e) => rest.push(e),
            None => rest,
        }
    }
}

pub open spec fn manual_view(v: Seq<(String, u128)>) -> Seq<(Seq<char>, u128)> {
    v.map_values(|e: (String, u128)| (e.0@, e.1))
}

fn find_group_index(gs: &Vec<GroupView>, name: &String) -> (r: Option<usize>)
    ensures
        match r {
            Some(i) => i < gs.len() && find_group(groups_view(gs@), name@) == Some(gs@[i as int]@),
            None => find_group(groups_view(gs@), name@) is None,
        },
{
    let ghost gv = groups_view(gs@);
    let mut i: usize = 0;
    assert(gv.skip(0) =~= gv);
    while i < gs.len()
        invariant
            gv == groups_view(gs@),
            gv.len() == gs.len(),
            i <= gs.len(),
            find_group(gv, name@) == find_group(gv.skip(i as int), name@),
        decreases gs.len() - i,
    {
        assert(gv.skip(i as int).drop_first() =~= gv.skip(i + 1));
        if gs[i].name == *name {
            return Some(i);
        }
        i = i + 1;
    }
    None
}

fn is_recently_manual(manual: &Vec<(String, u128)>, group: &String) -> (r: bool)
    ensures
        r == recently_manual(manual_view(manual@), group@),
{
    let ghost mv = manual_view(manual@);
    let mut i: usize = 0;
    assert(mv.skip(0) =~= mv);
    while i < manual.len()
        invariant
            mv == manual_view(manual@),
            mv.len() == manual.len(),
            i <= manual.len(),
            recently_manual(mv, group@) == recently_manual(mv.skip(i as int), group@),
        decreases manual.len() - i,
    {
        assert(mv.skip(i as int).drop_first() =~= mv.skip(i + 1));
        if manual[i].0 == *group {
            return manual[i].1 < GRACE_MS;
        }
        i = i + 1;
    }
    false
}

fn watched(g: &GroupView) -> (r: bool)
    ensures
        r == is_watched(g@),
{
    match g.kind {
        GroupKind::UrlTest | GroupKind::Fallback | GroupKind::LoadBalance => true,
        GroupKind::Selector => !str_eq(g.name.as_str(), "GLOBAL"),
        GroupKind::Relay => false,
    }
}

fn country_or_unknown(o: &Option<String>) -> (r: String)
    ensures
        r@ == or_unknown(opt_str_view(*o)),
{
    match o {
        Some(c) => c.clone(),
        None => string_of_pair('X', 'X'),
    }
}

/// The automatic switches between two snapshots: for each watched group of
/// `next` whose selection differs from the same-named group of `prev` (both
/// selecting something), unless `manual` records a switch of that group
/// within the grace period. `manual` holds each group's time since its last
/// manual switch, in milliseconds; `at` stamps the events.
pub fn detect_auto_switches(
    prev: &StateSnapshot,
    next: &StateSnapshot,
    manual: &Vec<(String, u128)>,
    at: i64,
) -> (r: Vec<AutoSwitch>)
    ensures
        switches_view(r@) == switches_of(prev@.groups, next@.groups, manual_view(manual@), at),
{
    let ghost pg = prev@.groups;
    let ghost ng = next@.groups;
    let ghost mv = manual_view(manual@);
    let mut r: Vec<AutoSwitch> = Vec::new();
    let mut i: usize = 0;
    assert(ng.take(0) =~= seq![]);
    while i < next.groups.len()
        invariant
            pg == groups_view(prev.groups@),
            ng == groups_view(next.groups@),
            ng.len() == next.groups.len(),
            mv == manual_view(manual@),
            i <= next.groups.len(),
            switches_view(r@) == switches_of(pg, ng.take(i as int), mv, at),
        decreases next.groups.len() - i,
    {
        assert(ng.take(i + 1).drop_last() =~= ng.take(i as int));
        assert(ng.take(i + 1).last() == next.groups@[i as int]@);
        let g = &next.groups[i];
        let ghost expected = switch_for(pg, g@, mv, at);
        let found = find_group_index(&prev.groups, &g.name);
        let prev_now: Option<&String> = match found {
            Some(k) => match &prev.groups[k].now {
                Some(n) => Some(n),
                None => None,
            },
            None => None,
        };
        if watched(g) {
            match (prev_now, &g.now) {
                (Some(from), Some(to)) => {
                    if !(*from == *to) && !is_recently_manual(manual, &g.name) {
                        let k = found.unwrap();
                        let e = AutoSwitch {
                            group: g.name.clone(),
                            from: from.clone(),
                            to: to.clone(),
                            from_country: country_or_unknown(&prev.groups[k].now_country),
                            to_country: country_or_unknown(&g.now_country),
                            at,
                        };
                        assert(expected == Some(e@));
                        r.push(e);
                        assert(switches_view(r@) =~= switches_of(pg, ng.take(i as int), mv, at).push(e@));
                    } else {
                        assert(expected is None);
                    }
                },
                _ => {
                    assert(expected is None);
                },
            }
        } else {
            assert(expected is None);
        }
        i = i + 1;
    }
    assert(ng.take(i as int) =~= ng);
    r
}

/// The ring after remembering `e`: the oldest entry goes once `RING_CAP` are held.
pub open spec fn ring_push(r: Seq<AutoSwitch>, e: AutoSwitch) -> Seq<AutoSwitch> {
    (if r.len() >= RING_CAP {
        r.drop_first()
    } else {
        r
    }).push(e)
}

/// The ring after remembering each of `es` in turn.
pub open spec fn ring_push_all(r: Seq<AutoSwitch>, es: Seq<AutoSwitch>) -> Seq<AutoSwitch>
    decreases es.len(),
{
    if es.len() == 0 {
        r
    } else {
        ring_push(ring_push_all(r, es.drop_last()), es.last())
    }
}

/// The last `n` entries of `s` (all of them when it holds fewer).
pub open spec fn last_n<A>(s: Seq<A>, n: nat) -> Seq<A> {
    if s.len() <= n {
        s
    } else {
        s.skip(s.len() - n)
    }
}

/// Remembers an automatic switch, forgetting the oldest once `RING_CAP` are held.
pub fn push_auto_switch(ring: &mut std::collections::VecDeque<AutoSwitch>, event: AutoSwitch)
    ensures
        final(ring)@ == ring_push(old(ring)@, event),
        old(ring)@.len() <= RING_CAP ==> final(ring)@.len() <= RING_CAP,
{
    if ring.len() >= RING_CAP {
        ring.pop_front();
    }
    ring.push_back(event);
}

/// Remembers a tick's automatic switches, in order, each as `push_auto_switch` does.
pub fn push_auto_switches(ring: &mut std::collections::VecDeque<AutoSwitch>, events: Vec<AutoSwitch>)
    ensures
        final(ring)@ == ring_push_all(old(ring)@, events@),
        old(ring)@.len() <= RING_CAP ==> final(ring)@ == last_n(old(ring)@ + events@, RING_CAP as nat)
            && final(ring)@.len() <= RING_CAP,
{
    let ghost r0 = ring@;
    let ghost es = events@;
    let mut rest = events;
    let n: usize = rest.len();
    let mut k: usize = 0;
    assert(es.take(0) =~= Seq::<AutoSwitch>::empty());
    assert(es.skip(0) =~= es);
    while rest.len() > 0
        invariant
            es.len() == n,
            k + rest.len() == n,
            rest@ == es.skip(k as int),
            ring@ == ring_push_all(r0, es.take(k as int)),
        decreases rest.len(),
    {
        let e = rest.remove(0);
        assert(es.take(k + 1).drop_last() =~= es.take(k as int));
        assert(es.take(k + 1).last() == e);
        assert(rest@ =~= es.skip(k + 1));
        push_auto_switch(ring, e);
        k = k + 1;
    }
    assert(es.take(k as int) =~= es);
    proof {
        if r0.len() <= RING_CAP {
            law_ring_keeps_last(r0, es);
        }
    }
}

// ---------------------------------------------------------------------------
// Poll loop decisions
// ---------------------------------------------------------------------------

/// Consecutive failed polls after which the connection counts as lost.
pub const MAX_FAILS: u32 = 3;

/// What the poll loop remembers between ticks.
#[derive(Debug, Clone, Copy, PartialEq, Eq, Structural)]
pub struct PollState {
    /// The next successful poll only sets the baseline for switch detection.
    pub fresh_baseline: bool,
    /// Some poll has succeeded since the app started.
    pub had_successful_poll: bool,
    /// Failed polls since the last success.
    pub failure_count: u32,
}

/// What to do after a successful poll.
#[derive(Debug, Clone, Copy, PartialEq, Eq, Structural)]
pub struct SuccessActions {
    /// Emit `connection-restored`.
    pub emit_restored: bool,
    /// Show the "reconnected" notification.
    pub notify_restored: bool,
    /// Compare the new snapshot with the previous one for automatic switches.
    pub detect_switches: bool,
}

/// What to do after a failed poll.
#[derive(Debug, Clone, Copy, PartialEq, Eq, Structural)]
pub struct FailureActions {
    /// Mark the snapshot lost and emit `connection-lost` and `state-updated`.
    pub mark_lost: bool,
    /// Show the "unreachable" notification.
    pub notify_lost: bool,
}

pub open spec fn initial_poll_state() -> PollState {
    PollState { fresh_baseline: true, had_successful_poll: false, failure_count: 0 }
}

/// The state and actions after a successful poll. `was_lost`: the snapshot
/// was lost before the poll; `prev_connection`: the previous snapshot's state.
pub open spec fn success_step(
    s: PollState,
    was_lost: bool,
    notify_connection: bool,
    prev_connection: ConnectionState,
) -> (PollState, SuccessActions) {
    let fresh = s.fresh_baseline || was_lost;
    (
        PollState { fresh_baseline: false, had_successful_poll: true, failure_count: 0 },
        SuccessActions {
            emit_restored: was_lost,
            notify_restored: was_lost && s.had_successful_poll && notify_connection,
            detect_switches: !fresh && prev_connection == ConnectionState::Connected,
        },
    )
}

/// The state and actions after a failed poll: the count goes up (wrapping
/// like the atomic counter it models) and the connection is declared lost
/// when it reaches `MAX_FAILS`.
pub open spec fn failure_step(s: PollState, notify_connection: bool) -> (PollState, FailureActions) {
    let n = if s.failure_count == u32::MAX {
        0
    } else {
        (s.failure_count + 1) as u32
    };
    (
        PollState { failure_count: n, ..s },
        FailureActions { mark_lost: n == MAX_FAILS, notify_lost: n == MAX_FAILS && notify_connection },
    )
}

/// What a poll tick brought: a `/proxies` answer (with the tick's inputs to
/// `on_success`) or a failure (with the input to `on_failure`).
pub enum PollOutcome {
    Answered { was_lost: bool, notify_connection: bool, prev_connection: ConnectionState },
    Failed { notify_connection: bool },
}

/// The state after one tick.
pub open spec fn poll_step(s: PollState, o: PollOutcome) -> PollState {
    match o {
        PollOutcome::Answered { was_lost, notify_connection, prev_connection } => success_step(
            s,
            was_lost,
            notify_connection,
            prev_connection,
        ).0,
        PollOutcome::Failed { notify_connection } => failure_step(s, notify_connection).0,
    }
}

/// The state after the ticks `os`, from the state the poll loop starts in.
pub open spec fn run_polls(os: Seq<PollOutcome>) -> PollState
    decreases os.len(),
{
    if os.len() == 0 {
        initial_poll_state()
    } else {
        poll_step(run_polls(os.drop_last()), os.last())
    }
}

/// Some tick of `os` brought an answer.
pub open spec fn some_answered(os: Seq<PollOutcome>) -> bool {
    exists|i: int| 0 <= i < os.len() && #[trigger] os[i] is Answered
}

impl PollState {
    pub fn new() -> (r: Self)
        ensures
            r == initial_poll_state(),
    {
        PollState { fresh_baseline: true, had_successful_poll: false, failure_count: 0 }
    }

    /// Records a successful poll.
    pub fn on_success(
        &mut self,
        was_lost: bool,
        notify_connection: bool,
        prev_connection: ConnectionState,
    ) -> (r: SuccessActions)
        ensures
            (*final(self), r) == success_step(*old(self), was_lost, notify_connection, prev_connection),
    {
        let mut fresh = self.fresh_baseline;
        let mut notify_restored = false;
        if was_lost {
            notify_restored = self.had_successful_poll && notify_connection;
            fresh = true;
        }
        self.had_successful_poll = true;
        self.failure_count = 0;
        let detect_switches = !fresh && prev_connection == ConnectionState::Connected;
        self.fresh_baseline = false;
        SuccessActions { emit_restored: was_lost, notify_restored, detect_switches }
    }

    /// Records a failed poll.
    pub fn on_failure(&mut self, notify_connection: bool) -> (r: FailureActions)
        ensures
            (*final(self), r) == failure_step(*old(self), notify_connection),
    {
        let n = self.failure_count.wrapping_add(1);
        self.failure_count = n;
        let lost = n == MAX_FAILS;
        FailureActions { mark_lost: lost, notify_lost: lost && notify_connection }
    }
}

// ---------------------------------------------------------------------------
// Laws
// ---------------------------------------------------------------------------

/// When any group is the primary one, the primary group is listed first.
pub proof fn law_primary_first(gs: Seq<GroupModel>, i: int)
    requires
        groups_sorted(gs),
        0 <= i < gs.len(),
        gs[i].is_primary,
    ensures
        gs[0].is_primary,
{
    if i > 0 && !gs[0].is_primary {
        assert(group_precedes(gs[i], gs[0]));
    }
}

/// Every proxy is either a group of the snapshot or a leaf it counts.
pub proof fn law_groups_and_leaves_cover_proxies(
    ps: Seq<(Seq<char>, ProxyModel)>,
    es: Seq<(Seq<char>, ProxyModel)>,
    s: SettingsModel,
)
    ensures
        groups_of(ps, es, s).len() + leaf_count_of(es) == es.len(),
    decreases es.len(),
{
    if es.len() > 0 {
        law_groups_and_leaves_cover_proxies(ps, es.drop_last(), s);
    }
}

/// The group built from a proxy of group type is among the groups of any
/// list of entries that holds it.
proof fn lemma_group_listed(
    ps: Seq<(Seq<char>, ProxyModel)>,
    es: Seq<(Seq<char>, ProxyModel)>,
    s: SettingsModel,
    i: int,
)
    requires
        0 <= i < es.len(),
        is_group_type(es[i].1.proxy_type),
    ensures
        groups_of(ps, es, s).contains(group_of(ps, es[i].1, s)),
    decreases es.len(),
{
    let rest = es.drop_last();
    if i < es.len() - 1 {
        assert(rest[i] == es[i]);
        lemma_group_listed(ps, rest, s, i);
        let k = choose|k: int| 0 <= k < groups_of(ps, rest, s).len() && groups_of(ps, rest, s)[k]
            == group_of(ps, es[i].1, s);
        if is_group_type(es.last().1.proxy_type) {
            assert(groups_of(ps, es, s)[k] == groups_of(ps, rest, s)[k]);
        }
    } else {
        let g = groups_of(ps, es, s);
        assert(g[g.len() - 1] == group_of(ps, es[i].1, s));
    }
}

/// Every proxy whose type is `Selector`, `URLTest`, `Fallback`,
/// `LoadBalance` or `Relay` is a group of the snapshot, under its name and
/// with the matching kind.
pub proof fn law_group_types_are_groups(
    ps: Seq<(Seq<char>, ProxyModel)>,
    s: SettingsModel,
    recent: Seq<AutoSwitchModel>,
    at: i64,
    r: SnapshotModel,
    i: int,
)
    requires
        snapshot_of(ps, s, recent, at, r),
        0 <= i < ps.len(),
        ps[i].1.proxy_type == "Selector"@ || ps[i].1.proxy_type == "URLTest"@ || ps[i].1.proxy_type
            == "Fallback"@ || ps[i].1.proxy_type == "LoadBalance"@ || ps[i].1.proxy_type == "Relay"@,
    ensures
        exists|k: int|
            0 <= k < r.groups.len() && #[trigger] r.groups[k] == group_of(ps, ps[i].1, s)
                && r.groups[k].name == ps[i].1.name && r.groups[k].kind == (if ps[i].1.proxy_type
                == "URLTest"@ {
                GroupKind::UrlTest
            } else if ps[i].1.proxy_type == "Fallback"@ {
                GroupKind::Fallback
            } else if ps[i].1.proxy_type == "LoadBalance"@ {
                GroupKind::LoadBalance
            } else if ps[i].1.proxy_type == "Relay"@ {
                GroupKind::Relay
            } else {
                GroupKind::Selector
            }),
{
    lemma_group_listed(ps, ps, s, i);
    let g = group_of(ps, ps[i].1, s);
    vstd::seq_lib::to_multiset_contains(groups_of(ps, ps, s), g);
    vstd::seq_lib::to_multiset_contains(r.groups, g);
    let k = choose|k: int| 0 <= k < r.groups.len() && r.groups[k] == g;
    assert(r.groups[k] == g);
}

/// One more entry in the `/proxies` answer adds one group and no leaf when
/// its type is a group type, and one leaf and no group otherwise.
pub proof fn law_one_more_entry(
    ps: Seq<(Seq<char>, ProxyModel)>,
    e: (Seq<char>, ProxyModel),
    s: SettingsModel,
    recent: Seq<AutoSwitchModel>,
    at: i64,
    r1: SnapshotModel,
    r2: SnapshotModel,
)
    requires
        snapshot_of(ps, s, recent, at, r1),
        snapshot_of(ps.push(e), s, recent, at, r2),
    ensures
        ({
            let grp = e.1.proxy_type == "Selector"@ || e.1.proxy_type == "URLTest"@ || e.1.proxy_type
                == "Fallback"@ || e.1.proxy_type == "LoadBalance"@ || e.1.proxy_type == "Relay"@;
            &&& r2.leaf_count == r1.leaf_count + (if grp { 0int } else { 1int })
            &&& r2.groups.len() == r1.groups.len() + (if grp { 1int } else { 0int })
        }),
{
    let qs = ps.push(e);
    assert(qs.drop_last() =~= ps);
    assert(qs.last() == e);
    law_groups_and_leaves_cover_proxies(ps, ps, s);
    law_groups_and_leaves_cover_proxies(qs, qs, s);
    vstd::seq_lib::to_multiset_len(r1.groups);
    vstd::seq_lib::to_multiset_len(r2.groups);
    vstd::seq_lib::to_multiset_len(groups_of(ps, ps, s));
    vstd::seq_lib::to_multiset_len(groups_of(qs, qs, s));
}

/// An automatic group (URL test, fallback or load balance), or a selector
/// other than `GLOBAL`, whose selection moved from one node to another since
/// the previous snapshot, and that was not switched by hand within the grace
/// period, is reported as switched from the old node to the new one.
pub proof fn law_watched_change_reported(
    prev: Seq<GroupModel>,
    g: GroupModel,
    manual: Seq<(Seq<char>, u128)>,
    at: i64,
    p: GroupModel,
    from: Seq<char>,
    to: Seq<char>,
)
    requires
        g.kind == GroupKind::UrlTest || g.kind == GroupKind::Fallback || g.kind
            == GroupKind::LoadBalance || (g.kind == GroupKind::Selector && g.name != "GLOBAL"@),
        find_group(prev, g.name) == Some(p),
        p.now == Some(from),
        g.now == Some(to),
        from != to,
        !recently_manual(manual, g.name),
    ensures
        switch_for(prev, g, manual, at) == Some(
            AutoSwitchModel {
                group: g.name,
                from,
                to,
                from_country: or_unknown(p.now_country),
                to_country: or_unknown(g.now_country),
                at,
            },
        ),
{
}

proof fn lemma_switch_in_list(
    prev: Seq<GroupModel>,
    next: Seq<GroupModel>,
    manual: Seq<(Seq<char>, u128)>,
    at: i64,
    k: int,
)
    requires
        0 <= k < next.len(),
        switch_for(prev, next[k], manual, at) is Some,
    ensures
        switches_of(prev, next, manual, at).contains(switch_for(prev, next[k], manual, at)->0),
    decreases next.len(),
{
    let rest = next.drop_last();
    let e = switch_for(prev, next[k], manual, at)->0;
    if k < next.len() - 1 {
        assert(rest[k] == next[k]);
        lemma_switch_in_list(prev, rest, manual, at, k);
        let w = switches_of(prev, rest, manual, at);
        let x = choose|x: int| 0 <= x < w.len() && w[x] == e;
        if switch_for(prev, next.last(), manual, at) is Some {
            assert(switches_of(prev, next, manual, at)[x] == w[x]);
        }
    } else {
        let w = switches_of(prev, next, manual, at);
        assert(w[w.len() - 1] == e);
    }
}

/// Comparing two snapshots reports, among its switches, every group of the
/// new snapshot that changed as `law_watched_change_reported` describes.
pub proof fn law_watched_change_in_switches(
    prev: Seq<GroupModel>,
    next: Seq<GroupModel>,
    manual: Seq<(Seq<char>, u128)>,
    at: i64,
    k: int,
    p: GroupModel,
    from: Seq<char>,
    to: Seq<char>,
)
    requires
        0 <= k < next.len(),
        next[k].kind == GroupKind::UrlTest || next[k].kind == GroupKind::Fallback || next[k].kind
            == GroupKind::LoadBalance || (next[k].kind == GroupKind::Selector && next[k].name
            != "GLOBAL"@),
        find_group(prev, next[k].name) == Some(p),
        p.now == Some(from),
        next[k].now == Some(to),
        from != to,
        !recently_manual(manual, next[k].name),
    ensures
        switches_of(prev, next, manual, at).contains(
            AutoSwitchModel {
                group: next[k].name,
                from,
                to,
                from_country: or_unknown(p.now_country),
                to_country: or_unknown(next[k].now_country),
                at,
            },
        ),
{
    law_watched_change_reported(prev, next[k], manual, at, p, from, to);
    lemma_switch_in_list(prev, next, manual, at, k);
}

/// The reconnect notification is never shown before some poll succeeded.
pub proof fn law_no_restore_notice_before_first_success(
    s: PollState,
    was_lost: bool,
    notify_connection: bool,
    prev: ConnectionState,
)
    requires
        !s.had_successful_poll,
    ensures
        !success_step(s, was_lost, notify_connection, prev).1.notify_restored,
{
}

/// From a healthy state, the connection is declared lost on exactly the third
/// failed poll in a row, and a fourth failure does not declare it again.
pub proof fn law_lost_on_third_failure(s: PollState, n: bool)
    requires
        s.failure_count == 0,
    ensures
        !failure_step(s, n).1.mark_lost,
        !failure_step(failure_step(s, n).0, n).1.mark_lost,
        failure_step(failure_step(failure_step(s, n).0, n).0, n).1.mark_lost,
        !failure_step(failure_step(failure_step(failure_step(s, n).0, n).0, n).0, n).1.mark_lost,
{
}

/// A successful poll clears the failure count.
pub proof fn law_success_resets_failures(s: PollState, was_lost: bool, n: bool, prev: ConnectionState)
    ensures
        success_step(s, was_lost, n, prev).0.failure_count == 0,
        success_step(s, was_lost, n, prev).0.had_successful_poll,
{
}

/// The first successful poll after a lost connection only sets a baseline;
/// the one after it compares snapshots again.
pub proof fn law_baseline_after_reconnect(s: PollState, n: bool, prev: ConnectionState)
    ensures
        !success_step(s, true, n, prev).1.detect_switches,
        success_step(success_step(s, true, n, prev).0, false, n, ConnectionState::Connected).1.detect_switches,
{
}

/// No switch is reported for a group switched by hand within the grace period.
pub proof fn law_manual_switch_not_reported(
    prev: Seq<GroupModel>,
    g: GroupModel,
    manual: Seq<(Seq<char>, u128)>,
    at: i64,
)
    requires
        recently_manual(manual, g.name),
    ensures
        switch_for(prev, g, manual, at) is None,
{
}

/// A reported switch goes from one node to a different one.
pub proof fn law_reported_switch_changes_node(
    prev: Seq<GroupModel>,
    g: GroupModel,
    manual: Seq<(Seq<char>, u128)>,
    at: i64,
)
    requires
        switch_for(prev, g, manual, at) is Some,
    ensures
        switch_for(prev, g, manual, at)->0.from != switch_for(prev, g, manual, at)->0.to,
        Some(switch_for(prev, g, manual, at)->0.to) == g.now,
{
}

/// Remembering switches one after another keeps the last `RING_CAP` of them,
/// in the order they came, the oldest dropped first.
pub proof fn law_ring_keeps_last(r: Seq<AutoSwitch>, es: Seq<AutoSwitch>)
    requires
        r.len() <= RING_CAP,
    ensures
        ring_push_all(r, es) == last_n(r + es, RING_CAP as nat),
        ring_push_all(r, es).len() <= RING_CAP,
    decreases es.len(),
{
    if es.len() > 0 {
        let p = es.drop_last();
        law_ring_keeps_last(r, p);
        let prev = last_n(r + p, RING_CAP as nat);
        let all = r + es;
        assert(all =~= (r + p).push(es.last()));
        if prev.len() >= RING_CAP {
            assert(prev.drop_first().push(es.last()) =~= all.skip(all.len() - RING_CAP));
        } else {
            assert(prev.push(es.last()) =~= all);
        }
    }
}

/// In every state the poll loop reaches, a success has been seen exactly when
/// some tick brought an answer, and only then is the baseline no longer fresh.
pub proof fn law_baseline_until_first_success(os: Seq<PollOutcome>)
    ensures
        run_polls(os).had_successful_poll == some_answered(os),
        run_polls(os).fresh_baseline == !run_polls(os).had_successful_poll,
    decreases os.len(),
{
    if os.len() > 0 {
        let p = os.drop_last();
        law_baseline_until_first_success(p);
        if some_answered(p) {
            let i = choose|i: int| 0 <= i < p.len() && #[trigger] p[i] is Answered;
            assert(os[i] == p[i]);
        }
        if some_answered(os) && !(os.last() is Answered) {
            let i = choose|i: int| 0 <= i < os.len() && #[trigger] os[i] is Answered;
            assert(p[i] == os[i]);
        }
        if os.last() is Answered {
            assert(os[os.len() - 1] is Answered);
        }
    }
}

/// A successful tick compares snapshots for automatic switches exactly when an
/// earlier tick succeeded, the connection was not lost, and the previous
/// snapshot was connected.
pub proof fn law_detect_only_after_earlier_success(
    os: Seq<PollOutcome>,
    was_lost: bool,
    n: bool,
    prev: ConnectionState,
)
    ensures
        success_step(run_polls(os), was_lost, n, prev).1.detect_switches == (some_answered(os)
            && !was_lost && prev == ConnectionState::Connected),
{
    law_baseline_until_first_success(os);
}

/// With distinct names, looking a name up in the `/proxies` answer finds the
/// proxy listed under it, wherever it stands in the list.
pub proof fn law_find_proxy_by_key(ps: Seq<(Seq<char>, ProxyModel)>, i: int)
    requires
        keys_distinct(ps),
        0 <= i < ps.len(),
    ensures
        find_proxy(ps, ps[i].0) == Some(ps[i].1),
    decreases ps.len(),
{
    if i > 0 {
        let t = ps.drop_first();
        assert(ps[0].0 != ps[i].0);
        assert(t[i - 1] == ps[i]);
        assert forall|a: int, b: int| #![trigger t[a], t[b]] 0 <= a < b < t.len() implies t[a].0
            != t[b].0 by {
            assert(t[a] == ps[a + 1] && t[b] == ps[b + 1]);
        }
        law_find_proxy_by_key(t, i - 1);
    }
}

/// A name is found in the `/proxies` answer exactly when some entry has it.
pub proof fn law_find_proxy_absent(ps: Seq<(Seq<char>, ProxyModel)>, key: Seq<char>)
    ensures
        (find_proxy(ps, key) is None) == (forall|i: int| 0 <= i < ps.len() ==> #[trigger] ps[i].0
            != key),
    decreases ps.len(),
{
    if ps.len() > 0 {
        let t = ps.drop_first();
        law_find_proxy_absent(t, key);
        assert forall|i: int| 0 <= i < t.len() implies #[trigger] t[i] == ps[i + 1] by {}
        if ps[0].0 != key && !(forall|i: int| 0 <= i < ps.len() ==> #[trigger] ps[i].0 != key) {
            let i = choose|i: int| 0 <= i < ps.len() && !(#[trigger] ps[i].0 != key);
            assert(t[i - 1] == ps[i]);
        }
    }
}

pub open spec fn names_distinct(gs: Seq<GroupModel>) -> bool {
    forall|i: int, j: int| 0 <= i < j < gs.len() ==> #[trigger] gs[i].name != #[trigger] gs[j].name
}

proof fn lemma_find_group_member(gs: Seq<GroupModel>, k: int)
    requires
        names_distinct(gs),
        0 <= k < gs.len(),
    ensures
        find_group(gs, gs[k].name) == Some(gs[k]),
    decreases gs.len(),
{
    if k > 0 {
        assert(gs[0].name != gs[k].name);
        let t = gs.drop_first();
        assert(t[k - 1] == gs[k]);
        assert forall|i: int, j: int| 0 <= i < j < t.len() implies #[trigger] t[i].name
            != #[trigger] t[j].name by {
            assert(t[i] == gs[i + 1] && t[j] == gs[j + 1]);
        }
        lemma_find_group_member(t, k - 1);
    }
}

/// A snapshot compared with itself reports no automatic switch, when its
/// group names are distinct.
pub proof fn law_unchanged_snapshot_reports_nothing(
    gs: Seq<GroupModel>,
    n: int,
    manual: Seq<(Seq<char>, u128)>,
    at: i64,
)
    requires
        names_distinct(gs),
        0 <= n <= gs.len(),
    ensures
        switches_of(gs, gs.take(n), manual, at) == Seq::<AutoSwitchModel>::empty(),
    decreases n,
{
    if n > 0 {
        assert(gs.take(n).drop_last() =~= gs.take(n - 1));
        assert(gs.take(n).last() == gs[n - 1]);
        law_unchanged_snapshot_reports_nothing(gs, n - 1, manual, at);
        lemma_find_group_member(gs, n - 1);
    }
}

} // verus!
