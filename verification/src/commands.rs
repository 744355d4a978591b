//! What the switching commands decide: which group and node to select.
use vstd::prelude::*;

use crate::clash::types::opt_str_view;
use crate::poll::{find_group, fullwidth_colon, switch_for};
use crate::state::{groups_view, GroupKind, GroupModel, GroupView, NodeModel, NodeView, nodes_view};
use crate::text::{
    chars_of, concat, concat3, contains_char, lemma_seq_lt_asymmetric,
    lemma_seq_lt_irreflexive, lemma_seq_lt_total, lemma_seq_lt_transitive, owned, seq_lt, str_eq,
    str_lt, str_to_uppercase, to_uppercase,
};

verus! {

// ---------------------------------------------------------------------------
// Choosing the group
// ---------------------------------------------------------------------------

/// The index of the first group named `name`.
pub open spec fn index_named(gs: Seq<GroupModel>, name: Seq<char>) -> Option<int>
    decreases gs.len(),
{
    if gs.len() == 0 {
        None
    } else if gs[0].name == name {
        Some(0)
    } else {
        match index_named(gs.drop_first(), name) {
            Some(i) => Some(i + 1),
            None => None,
        }
    }
}

/// A selector other than `GLOBAL`.
pub open spec fn is_plain_selector(g: GroupModel) -> bool {
    g.kind == GroupKind::Selector && g.name != "GLOBAL"@
}

pub open spec fn has_member_in(g: GroupModel, country: Seq<char>) -> bool {
    exists|i: int| 0 <= i < g.members.len() && #[trigger] g.members[i].country == country
}

/// The index of the first plain selector with a member in `country`.
pub open spec fn first_selector_with(gs: Seq<GroupModel>, country: Seq<char>) -> Option<int>
    decreases gs.len(),
{
    if gs.len() == 0 {
        None
    } else if is_plain_selector(gs[0]) && has_member_in(gs[0], country) {
        Some(0)
    } else {
        match first_selector_with(gs.drop_first(), country) {
            Some(i) => Some(i + 1),
            None => None,
        }
    }
}

/// The index of the first plain selector.
pub open spec fn first_plain_selector(gs: Seq<GroupModel>) -> Option<int>
    decreases gs.len(),
{
    if gs.len() == 0 {
        None
    } else if is_plain_selector(gs[0]) {
        Some(0)
    } else {
        match first_plain_selector(gs.drop_first()) {
            Some(i) => Some(i + 1),
            None => None,
        }
    }
}

/// The group to switch within for `country`: the primary group when it has
/// a member there, else the first plain selector that has one.
pub open spec fn chosen_group(
    gs: Seq<GroupModel>,
    primary: Option<Seq<char>>,
    country: Seq<char>,
) -> Option<int> {
    let p = match primary {
        Some(n) => match index_named(gs, n) {
            Some(i) => if has_member_in(gs[i], country) {
                Some(i)
            } else {
                None
            },
            None => None,
        },
        None => None,
    };
    if p is Some {
        p
    } else {
        first_selector_with(gs, country)
    }
}

/// The primary group: the one named in the settings, else the first plain
/// selector.
pub open spec fn primary_index(gs: Seq<GroupModel>, primary: Option<Seq<char>>) -> Option<int> {
    match primary {
        Some(n) => index_named(gs, n),
        None => first_plain_selector(gs),
    }
}

proof fn lemma_index_named_bounds(gs: Seq<GroupModel>, name: Seq<char>)
    ensures
        index_named(gs, name) matches Some(i) ==> 0 <= i < gs.len() && gs[i].name == name,
    decreases gs.len(),
{
    if gs.len() > 0 {
        lemma_index_named_bounds(gs.drop_first(), name);
    }
}

/// The index of the first group named `name`.
pub fn find_group_named(groups: &Vec<GroupView>, name: &str) -> (r: Option<usize>)
    ensures
        r matches Some(i) ==> i < groups.len(),
        match r {
            Some(i) => index_named(groups_view(groups@), name@) == Some(i as int),
            None => index_named(groups_view(groups@), name@) is None,
        },
{
    let ghost gv = groups_view(groups@);
    let mut i: usize = 0;
    assert(gv.skip(0) =~= gv);
    while i < groups.len()
        invariant
            gv == groups_view(groups@),
            gv.len() == groups.len(),
            i <= groups.len(),
            index_named(gv, name@) == match index_named(gv.skip(i as int), name@) {
                Some(k) => Some(k + i),
                None => None,
            },
        decreases groups.len() - i,
    {
        assert(gv.skip(i as int).drop_first() =~= gv.skip(i + 1));
        if str_eq(groups[i].name.as_str(), name) {
            return Some(i);
        }
        i = i + 1;
    }
    None
}

fn is_plain_selector_group(g: &GroupView) -> (r: bool)
    ensures
        r == is_plain_selector(g@),
{
    g.kind == GroupKind::Selector && !str_eq(g.name.as_str(), "GLOBAL")
}

fn group_has_member_in(g: &GroupView, country: &str) -> (r: bool)
    ensures
        r == has_member_in(g@, country@),
{
    let mut i: usize = 0;
    while i < g.members.len()
        invariant
            i <= g.members.len(),
            forall|j: int| 0 <= j < i ==> (#[trigger] g@.members[j]).country != country@,
        decreases g.members.len() - i,
    {
        if str_eq(g.members[i].country.as_str(), country) {
            assert(g@.members[i as int].country == country@);
            return true;
        }
        i = i + 1;
    }
    false
}

/// The index of the first plain selector with a member in `country`.
fn find_selector_with(groups: &Vec<GroupView>, country: &str) -> (r: Option<usize>)
    ensures
        r matches Some(i) ==> i < groups.len(),
        match r {
            Some(i) => first_selector_with(groups_view(groups@), country@) == Some(i as int),
            None => first_selector_with(groups_view(groups@), country@) is None,
        },
{
    let ghost gv = groups_view(groups@);
    let mut i: usize = 0;
    assert(gv.skip(0) =~= gv);
    while i < groups.len()
        invariant
            gv == groups_view(groups@),
            gv.len() == groups.len(),
            i <= groups.len(),
            first_selector_with(gv, country@) == match first_selector_with(
                gv.skip(i as int),
                country@,
            ) {
                Some(k) => Some(k + i),
                None => None,
            },
        decreases groups.len() - i,
    {
        assert(gv.skip(i as int).drop_first() =~= gv.skip(i + 1));
        if is_plain_selector_group(&groups[i]) && group_has_member_in(&groups[i], country) {
            return Some(i);
        }
        i = i + 1;
    }
    None
}

/// The index of the first plain selector.
fn find_plain_selector(groups: &Vec<GroupView>) -> (r: Option<usize>)
    ensures
        r matches Some(i) ==> i < groups.len(),
        match r {
            Some(i) => first_plain_selector(groups_view(groups@)) == Some(i as int),
            None => first_plain_selector(groups_view(groups@)) is None,
        },
{
    let ghost gv = groups_view(groups@);
    let mut i: usize = 0;
    assert(gv.skip(0) =~= gv);
    while i < groups.len()
        invariant
            gv == groups_view(groups@),
            gv.len() == groups.len(),
            i <= groups.len(),
            first_plain_selector(gv) == match first_plain_selector(gv.skip(i as int)) {
                Some(k) => Some(k + i),
                None => None,
            },
        decreases groups.len() - i,
    {
        assert(gv.skip(i as int).drop_first() =~= gv.skip(i + 1));
        if is_plain_selector_group(&groups[i]) {
            return Some(i);
        }
        i = i + 1;
    }
    None
}

/// The group to switch within for `country` (see `chosen_group`).
pub fn choose_group(groups: &Vec<GroupView>, primary: &Option<String>, country: &str) -> (r:
    Option<usize>)
    ensures
        r matches Some(i) ==> i < groups.len(),
        match r {
            Some(i) => chosen_group(groups_view(groups@), opt_str_view(*primary), country@) == Some(
                i as int,
            ),
            None => chosen_group(groups_view(groups@), opt_str_view(*primary), country@) is None,
        },
{
    if let Some(name) = primary {
        if let Some(i) = find_group_named(groups, name.as_str()) {
            if group_has_member_in(&groups[i], country) {
                return Some(i);
            }
        }
    }
    find_selector_with(groups, country)
}

/// The primary group's index (see `primary_index`).
pub fn find_primary(groups: &Vec<GroupView>, primary: &Option<String>) -> (r: Option<usize>)
    ensures
        r matches Some(i) ==> i < groups.len(),
        match r {
            Some(i) => primary_index(groups_view(groups@), opt_str_view(*primary)) == Some(i as int),
            None => primary_index(groups_view(groups@), opt_str_view(*primary)) is None,
        },
{
    match primary {
        Some(name) => find_group_named(groups, name.as_str()),
        None => find_plain_selector(groups),
    }
}

// ---------------------------------------------------------------------------
// Choosing the node
// ---------------------------------------------------------------------------

/// A member that quick switch may select for `country`: in that country, a
/// leaf node, and not a subscription pseudo-node.
pub open spec fn is_eligible(m: NodeModel, country: Seq<char>) -> bool {
    m.country == country && !m.is_group && !m.name.contains(fullwidth_colon())
}

/// The delay a member is ranked by; unmeasured or zero delays rank last.
pub open spec fn delay_rank(m: NodeModel) -> u32 {
    match m.latest_delay {
        Some(d) => if d != 0 {
            d
        } else {
            u32::MAX
        },
        None => u32::MAX,
    }
}

/// `a` ranks strictly better than `b`: lower delay, then lower name.
pub open spec fn node_before(a: NodeModel, b: NodeModel) -> bool {
    delay_rank(a) < delay_rank(b) || (delay_rank(a) == delay_rank(b) && seq_lt(a.name, b.name))
}

/// Member `b` is the best eligible one among the first `n`: no eligible member
/// ranks better, and every earlier eligible one ranks worse.
pub open spec fn best_node_in(ms: Seq<NodeModel>, country: Seq<char>, n: int, b: int) -> bool {
    &&& 0 <= b < n <= ms.len()
    &&& is_eligible(ms[b], country)
    &&& forall|j: int|
        0 <= j < n && is_eligible(#[trigger] ms[j], country) ==> !node_before(ms[j], ms[b]) && (j
            < b ==> node_before(ms[b], ms[j]))
}

/// The best eligible member of a group, if any.
pub open spec fn best_node(ms: Seq<NodeModel>, country: Seq<char>) -> Option<int> {
    if exists|b: int| best_node_in(ms, country, ms.len() as int, b) {
        Some(choose|b: int| best_node_in(ms, country, ms.len() as int, b))
    } else {
        None
    }
}

proof fn lemma_node_before_irreflexive(a: NodeModel)
    ensures
        !node_before(a, a),
{
    lemma_seq_lt_irreflexive(a.name);
}

/// Ranking better, then not worse, is ranking better.
proof fn lemma_node_before_then_not_after(a: NodeModel, b: NodeModel, c: NodeModel)
    requires
        node_before(a, b),
        !node_before(c, b),
    ensures
        node_before(a, c),
{
    lemma_seq_lt_total(b.name, c.name);
    if delay_rank(a) == delay_rank(b) && delay_rank(b) == delay_rank(c) {
        if seq_lt(b.name, c.name) {
            lemma_seq_lt_transitive(a.name, b.name, c.name);
        }
    }
}

proof fn lemma_node_before_asymmetric(a: NodeModel, b: NodeModel)
    ensures
        !(node_before(a, b) && node_before(b, a)),
{
    lemma_seq_lt_asymmetric(a.name, b.name);
}

proof fn lemma_best_node_unique(ms: Seq<NodeModel>, country: Seq<char>, n: int, b1: int, b2: int)
    requires
        best_node_in(ms, country, n, b1),
        best_node_in(ms, country, n, b2),
    ensures
        b1 == b2,
{
    assert(is_eligible(ms[b1], country));
    assert(is_eligible(ms[b2], country));
    if b1 < b2 {
        assert(node_before(ms[b2], ms[b1]));
    } else if b2 < b1 {
        assert(node_before(ms[b1], ms[b2]));
    }
}

fn node_eligible(m: &NodeView, country: &str) -> (r: bool)
    ensures
        r == is_eligible(m@, country@),
{
    if !str_eq(m.country.as_str(), country) || m.is_group {
        return false;
    }
    let v = chars_of(m.name.as_str());
    !contains_char(&v, '\u{ff1a}')
}

fn rank_of(m: &NodeView) -> (r: u32)
    ensures
        r == delay_rank(m@),
{
    match m.latest_delay {
        Some(d) => if d != 0 {
            d
        } else {
            u32::MAX
        },
        None => u32::MAX,
    }
}

fn ranks_before(a: &NodeView, b: &NodeView) -> (r: bool)
    ensures
        r == node_before(a@, b@),
{
    let ra = rank_of(a);
    let rb = rank_of(b);
    ra < rb || (ra == rb && str_lt(a.name.as_str(), b.name.as_str()))
}

/// The best member of `members` to switch to for `country` (see `best_node_in`).
pub fn pick_best_node(members: &Vec<NodeView>, country: &str) -> (r: Option<usize>)
    ensures
        r matches Some(i) ==> i < members.len(),
        match r {
            Some(i) => best_node(nodes_view(members@), country@) == Some(i as int),
            None => best_node(nodes_view(members@), country@) is None,
        },
{
    let ghost ms = nodes_view(members@);
    let mut best: Option<usize> = None;
    let mut i: usize = 0;
    while i < members.len()
        invariant
            ms == nodes_view(members@),
            ms.len() == members.len(),
            i <= members.len(),
            best is None ==> forall|j: int|
                0 <= j < i ==> !is_eligible(#[trigger] ms[j], country@),
            best matches Some(b) ==> best_node_in(ms, country@, i as int, b as int),
        decreases members.len() - i,
    {
        if node_eligible(&members[i], country) {
            match best {
                None => {
                    best = Some(i);
                    proof {
                        lemma_node_before_irreflexive(ms[i as int]);
                    }
                },
                Some(b) => {
                    if ranks_before(&members[i], &members[b]) {
                        proof {
                            assert forall|j: int|
                                0 <= j < i + 1 && is_eligible(#[trigger] ms[j], country@) implies !node_before(
                                ms[j],
                                ms[i as int],
                            ) && (j < i ==> node_before(ms[i as int], ms[j])) by {
                                lemma_node_before_irreflexive(ms[i as int]);
                                if j < i {
                                    if j == b {
                                    } else if j < b {
                                        assert(node_before(ms[b as int], ms[j]));
                                        lemma_node_before_asymmetric(ms[b as int], ms[j]);
                                        lemma_node_before_then_not_after(
                                            ms[i as int],
                                            ms[b as int],
                                            ms[j],
                                        );
                                    } else {
                                        assert(!node_before(ms[j], ms[b as int]));
                                        lemma_node_before_then_not_after(
                                            ms[i as int],
                                            ms[b as int],
                                            ms[j],
                                        );
                                    }
                                    lemma_node_before_asymmetric(ms[i as int], ms[j]);
                                }
                            }
                        }
                        best = Some(i);
                    }
                },
            }
        }
        i = i + 1;
    }
    match best {
        None => {
            assert forall|b: int| !best_node_in(ms, country@, ms.len() as int, b) by {
                if best_node_in(ms, country@, ms.len() as int, b) {
                    assert(is_eligible(ms[b], country@));
                }
            }
            None
        },
        Some(b) => {
            proof {
                let c = choose|c: int| best_node_in(ms, country@, ms.len() as int, c);
                lemma_best_node_unique(ms, country@, ms.len() as int, c, b as int);
            }
            Some(b)
        },
    }
}

// ---------------------------------------------------------------------------
// Quick switch
// ---------------------------------------------------------------------------

/// Why quick switch found nothing to select.
#[derive(Debug, Clone, Copy, PartialEq, Eq, Structural)]
pub enum QuickSwitchError {
    /// No group has a member in the country.
    NoGroup,
    /// The chosen group (by index) has no eligible member in the country.
    NoNode(usize),
}

/// Where quick switch to an (upper-case) country goes: the chosen group and
/// its best eligible member, as indices.
pub open spec fn quick_switch_plan(
    gs: Seq<GroupModel>,
    primary: Option<Seq<char>>,
    country: Seq<char>,
) -> Result<(int, int), QuickSwitchError> {
    match chosen_group(gs, primary, country) {
        None => Err(QuickSwitchError::NoGroup),
        Some(g) => match best_node(gs[g].members, country) {
            None => Err(QuickSwitchError::NoNode(g as usize)),
            Some(n) => Ok((g, n)),
        },
    }
}

/// The group and member quick switch selects for `country` (already upper-cased).
pub fn plan_quick_switch(groups: &Vec<GroupView>, primary: &Option<String>, country: &str) -> (r:
    Result<(usize, usize), QuickSwitchError>)
    ensures
        r matches Err(QuickSwitchError::NoNode(g)) ==> g < groups.len(),
        match r {
            Ok((g, n)) => g < groups.len() && n < groups@[g as int].members.len()
                && quick_switch_plan(groups_view(groups@), opt_str_view(*primary), country@) == Ok::<
                (int, int),
                QuickSwitchError,
            >((g as int, n as int)),
            Err(e) => quick_switch_plan(groups_view(groups@), opt_str_view(*primary), country@)
                == Err::<(int, int), QuickSwitchError>(e),
        },
{
    match choose_group(groups, primary, country) {
        None => Err(QuickSwitchError::NoGroup),
        Some(g) => {
            assert(groups_view(groups@)[g as int].members == nodes_view(groups@[g as int].members@));
            match pick_best_node(&groups[g].members, country) {
                None => Err(QuickSwitchError::NoNode(g)),
                Some(n) => Ok((g, n)),
            }
        },
    }
}

/// The message for a failed quick switch to `country`.
pub open spec fn quick_switch_error_text(
    gs: Seq<GroupModel>,
    country: Seq<char>,
    e: QuickSwitchError,
) -> Seq<char> {
    match e {
        QuickSwitchError::NoGroup => "No selector group has a node in "@ + country,
        QuickSwitchError::NoNode(g) => "No "@ + country + " node found in group "@ + gs[g as int].name,
    }
}

/// What quick switch to an upper-case `country` gives: the names of the
/// group and node to select, or the message of why there is none.
pub open spec fn quick_switch_result(
    gs: Seq<GroupModel>,
    primary: Option<Seq<char>>,
    country: Seq<char>,
) -> Result<(Seq<char>, Seq<char>), Seq<char>> {
    match quick_switch_plan(gs, primary, country) {
        Ok((g, n)) => Ok((gs[g].name, gs[g].members[n].name)),
        Err(e) => Err(quick_switch_error_text(gs, country, e)),
    }
}

/// What quick switch to `country` does: the country is upper-cased first.
pub open spec fn quick_switch_outcome(
    gs: Seq<GroupModel>,
    primary: Option<Seq<char>>,
    country: Seq<char>,
) -> Result<(Seq<char>, Seq<char>), Seq<char>> {
    quick_switch_result(gs, primary, str_to_uppercase(country))
}

/// The names of the group and node quick switch selects for an already
/// upper-cased `country`, or the message saying why it cannot.
pub fn quick_switch_target_upper(groups: &Vec<GroupView>, primary: &Option<String>, country: &str) -> (r:
    Result<(String, String), String>)
    ensures
        match r {
            Ok((g, n)) => quick_switch_result(groups_view(groups@), opt_str_view(*primary), country@)
                == Ok::<(Seq<char>, Seq<char>), Seq<char>>((g@, n@)),
            Err(m) => quick_switch_result(groups_view(groups@), opt_str_view(*primary), country@)
                == Err::<(Seq<char>, Seq<char>), Seq<char>>(m@),
        },
{
    match plan_quick_switch(groups, primary, country) {
        Ok((g, n)) => {
            assert(groups_view(groups@)[g as int].members[n as int] == groups@[g as int].members@[n as int]@);
            assert(groups_view(groups@)[g as int].name == groups@[g as int].name@);
            Ok((groups[g].name.clone(), groups[g].members[n].name.clone()))
        },
        Err(QuickSwitchError::NoGroup) => Err(concat("No selector group has a node in ", country)),
        Err(QuickSwitchError::NoNode(g)) => {
            assert(groups_view(groups@)[g as int].name == groups@[g as int].name@);
            let mut m = concat3("No ", country, " node found in group ");
            m.append(groups[g].name.as_str());
            assert(m@ =~= "No "@ + country@ + " node found in group "@ + groups@[g as int].name@);
            Err(m)
        },
    }
}

/// The names of the group and node quick switch selects for `country`, or
/// the message saying why it cannot.
pub fn quick_switch_target(groups: &Vec<GroupView>, primary: &Option<String>, country: &str) -> (r:
    Result<(String, String), String>)
    ensures
        match r {
            Ok((g, n)) => quick_switch_outcome(groups_view(groups@), opt_str_view(*primary), country@)
                == Ok::<(Seq<char>, Seq<char>), Seq<char>>((g@, n@)),
            Err(m) => quick_switch_outcome(groups_view(groups@), opt_str_view(*primary), country@)
                == Err::<(Seq<char>, Seq<char>), Seq<char>>(m@),
        },
{
    let upper = to_uppercase(country);
    quick_switch_target_upper(groups, primary, upper.as_str())
}

/// The group to switch for "Auto select" style entries: the primary group's
/// name, or the message saying there is none.
pub fn primary_switch_target(groups: &Vec<GroupView>, primary: &Option<String>) -> (r: Result<
    String,
    String,
>)
    ensures
        match r {
            Ok(g) => primary_index(groups_view(groups@), opt_str_view(*primary)) matches Some(i)
                && g@ == groups_view(groups@)[i].name,
            Err(m) => primary_index(groups_view(groups@), opt_str_view(*primary)) is None && m@
                == "No primary selector group available"@,
        },
{
    match find_primary(groups, primary) {
        Some(i) => Ok(groups[i].name.clone()),
        None => Err(owned("No primary selector group available")),
    }
}

// ---------------------------------------------------------------------------
// Optimistic update
// ---------------------------------------------------------------------------

/// The groups after selecting `node` in the first group named `group`.
pub open spec fn with_selection(gs: Seq<GroupModel>, group: Seq<char>, node: Seq<char>) -> Seq<
    GroupModel,
> {
    match index_named(gs, group) {
        Some(i) => gs.update(i, GroupModel { now: Some(node), ..gs[i] }),
        None => gs,
    }
}

/// Records in the snapshot's groups that `node` is now selected in `group`,
/// before the next poll confirms it.
pub fn set_group_now(groups: &mut Vec<GroupView>, group: &str, node: &str)
    ensures
        groups_view(final(groups)@) == with_selection(groups_view(old(groups)@), group@, node@),
{
    match find_group_named(groups, group) {
        Some(i) => {
            let ghost gv = groups_view(groups@);
            let mut g = groups[i].duplicate();
            g.now = Some(owned(node));
            groups.set(i, g);
            assert(groups_view(groups@) =~= gv.update(i as int, GroupModel { now: Some(node@), ..gv[i as int] }));
        },
        None => {},
    }
}

// ---------------------------------------------------------------------------
// Laws
// ---------------------------------------------------------------------------

proof fn lemma_best_node_exists(ms: Seq<NodeModel>, country: Seq<char>, n: int, i: int)
    requires
        0 <= i < n <= ms.len(),
        is_eligible(ms[i], country),
    ensures
        exists|b: int| best_node_in(ms, country, n, b),
    decreases n,
{
    let last = n - 1;
    if exists|j: int| 0 <= j < last && is_eligible(ms[j], country) {
        let j = choose|j: int| 0 <= j < last && is_eligible(ms[j], country);
        lemma_best_node_exists(ms, country, last, j);
        let b = choose|b: int| best_node_in(ms, country, last, b);
        if is_eligible(ms[last], country) && node_before(ms[last], ms[b]) {
            assert forall|k: int|
                0 <= k < n && is_eligible(#[trigger] ms[k], country) implies !node_before(
                ms[k],
                ms[last],
            ) && (k < last ==> node_before(ms[last], ms[k])) by {
                lemma_node_before_irreflexive(ms[last]);
                if k < last {
                    if k != b {
                        assert(!node_before(ms[k], ms[b]));
                        lemma_node_before_then_not_after(ms[last], ms[b], ms[k]);
                    }
                    lemma_node_before_asymmetric(ms[last], ms[k]);
                }
            }
            assert(best_node_in(ms, country, n, last));
        } else {
            assert(best_node_in(ms, country, n, b));
        }
    } else {
        assert(i == last);
        lemma_node_before_irreflexive(ms[last]);
        assert(best_node_in(ms, country, n, last));
    }
}

/// The first plain selector with a member in `country`, found by index.
proof fn lemma_first_selector_with(gs: Seq<GroupModel>, country: Seq<char>)
    ensures
        (first_selector_with(gs, country) is None) == (forall|i: int|
            0 <= i < gs.len() ==> !(#[trigger] gs[i].kind == GroupKind::Selector && gs[i].name
                != "GLOBAL"@ && exists|m: int|
                0 <= m < gs[i].members.len() && gs[i].members[m].country == country)),
        first_selector_with(gs, country) matches Some(g) ==> 0 <= g < gs.len() && gs[g].kind
            == GroupKind::Selector && gs[g].name != "GLOBAL"@ && (exists|m: int|
            0 <= m < gs[g].members.len() && gs[g].members[m].country == country) && forall|j: int|
            0 <= j < g ==> !(#[trigger] gs[j].kind == GroupKind::Selector && gs[j].name
                != "GLOBAL"@ && exists|m: int|
                0 <= m < gs[j].members.len() && gs[j].members[m].country == country),
    decreases gs.len(),
{
    if gs.len() > 0 {
        let t = gs.drop_first();
        lemma_first_selector_with(t, country);
        assert forall|i: int| 0 < i < gs.len() implies gs[i] == t[i - 1] by {}
    }
}

/// Without a primary group that has a member in `country`, quick switch
/// chooses the first selector other than `GLOBAL` that has a member in the
/// country (no earlier group qualifies), and none when no group qualifies.
pub proof fn law_quick_switch_first_selector(
    gs: Seq<GroupModel>,
    primary: Option<Seq<char>>,
    country: Seq<char>,
)
    requires
        forall|i: int|
            0 <= i < gs.len() && primary == Some(#[trigger] gs[i].name) ==> !exists|m: int|
                0 <= m < gs[i].members.len() && gs[i].members[m].country == country,
    ensures
        (chosen_group(gs, primary, country) is None) == (forall|i: int|
            0 <= i < gs.len() ==> !(#[trigger] gs[i].kind == GroupKind::Selector && gs[i].name
                != "GLOBAL"@ && exists|m: int|
                0 <= m < gs[i].members.len() && gs[i].members[m].country == country)),
        chosen_group(gs, primary, country) matches Some(g) ==> 0 <= g < gs.len() && gs[g].kind
            == GroupKind::Selector && gs[g].name != "GLOBAL"@ && (exists|m: int|
            0 <= m < gs[g].members.len() && gs[g].members[m].country == country) && forall|j: int|
            0 <= j < g ==> !(#[trigger] gs[j].kind == GroupKind::Selector && gs[j].name
                != "GLOBAL"@ && exists|m: int|
                0 <= m < gs[j].members.len() && gs[j].members[m].country == country),
{
    lemma_first_selector_with(gs, country);
    match primary {
        Some(n) => {
            lemma_index_named_bounds(gs, n);
            match index_named(gs, n) {
                Some(i) => {
                    assert(primary == Some(gs[i].name));
                },
                None => {},
            }
        },
        None => {},
    }
}

/// Quick switch selects an eligible member that no eligible member of the
/// group outranks (lower delay, then lower name).
pub proof fn law_quick_switch_picks_best(
    gs: Seq<GroupModel>,
    primary: Option<Seq<char>>,
    country: Seq<char>,
    g: int,
    n: int,
)
    requires
        quick_switch_plan(gs, primary, country) == Ok::<(int, int), QuickSwitchError>((g, n)),
    ensures
        chosen_group(gs, primary, country) == Some(g),
        is_eligible(gs[g].members[n], country),
        forall|j: int|
            0 <= j < gs[g].members.len() && is_eligible(#[trigger] gs[g].members[j], country)
                ==> !node_before(gs[g].members[j], gs[g].members[n]),
{
    let ms = gs[g].members;
    assert(best_node(ms, country) == Some(n));
    assert(best_node_in(ms, country, ms.len() as int, n));
}

/// When the chosen group has any eligible member, quick switch finds one.
pub proof fn law_quick_switch_finds_node(
    gs: Seq<GroupModel>,
    primary: Option<Seq<char>>,
    country: Seq<char>,
    g: int,
    i: int,
)
    requires
        chosen_group(gs, primary, country) == Some(g),
        0 <= i < gs[g].members.len(),
        is_eligible(gs[g].members[i], country),
    ensures
        quick_switch_plan(gs, primary, country) is Ok,
{
    lemma_best_node_exists(gs[g].members, country, gs[g].members.len() as int, i);
}

/// Selecting a node records it in the first group of that name and leaves
/// every other group as it was.
pub proof fn law_selection_recorded(gs: Seq<GroupModel>, group: Seq<char>, node: Seq<char>, i: int)
    requires
        index_named(gs, group) == Some(i),
    ensures
        with_selection(gs, group, node).len() == gs.len(),
        with_selection(gs, group, node)[i].now == Some(node),
        with_selection(gs, group, node)[i].name == gs[i].name,
        forall|j: int| 0 <= j < gs.len() && j != i ==> #[trigger] with_selection(gs, group, node)[j] == gs[j],
{
    lemma_index_named_bounds(gs, group);
}

/// The first group of a name is the same whether searched by index or by value.
proof fn lemma_find_group_is_index_named(gs: Seq<GroupModel>, name: Seq<char>)
    ensures
        match index_named(gs, name) {
            Some(i) => find_group(gs, name) == Some(gs[i]),
            None => find_group(gs, name) is None,
        },
    decreases gs.len(),
{
    if gs.len() > 0 && gs[0].name != name {
        lemma_find_group_is_index_named(gs.drop_first(), name);
        lemma_index_named_bounds(gs.drop_first(), name);
        match index_named(gs.drop_first(), name) {
            Some(i) => assert(gs.drop_first()[i] == gs[i + 1]),
            None => {},
        }
    }
}

/// Replacing a group by one of the same name keeps it the first of that name.
proof fn lemma_index_named_update(gs: Seq<GroupModel>, name: Seq<char>, i: int, g: GroupModel)
    requires
        index_named(gs, name) == Some(i),
        g.name == name,
    ensures
        index_named(gs.update(i, g), name) == Some(i),
    decreases gs.len(),
{
    lemma_index_named_bounds(gs, name);
    let u = gs.update(i, g);
    if i > 0 {
        assert(gs[0].name != name);
        assert(u[0] == gs[0]);
        assert(u.drop_first() =~= gs.drop_first().update(i - 1, g));
        lemma_index_named_update(gs.drop_first(), name, i - 1, g);
    }
}

/// A switch the app made itself is not reported as automatic: once `node`
/// is recorded as selected in `group`, a poll that finds `group` on `node`
/// reports no switch for it.
pub proof fn law_own_switch_not_reported(
    gs: Seq<GroupModel>,
    group: Seq<char>,
    node: Seq<char>,
    next: GroupModel,
    manual: Seq<(Seq<char>, u128)>,
    at: i64,
)
    requires
        index_named(gs, group) is Some,
        next.name == group,
        next.now == Some(node),
    ensures
        switch_for(with_selection(gs, group, node), next, manual, at) is None,
{
    let i = index_named(gs, group)->0;
    lemma_index_named_bounds(gs, group);
    let g = GroupModel { now: Some(node), ..gs[i] };
    lemma_index_named_update(gs, group, i, g);
    lemma_find_group_is_index_named(gs.update(i, g), group);
}

} // verus!
