//! The tray menu's contents: labels, check marks, tooltip and menu actions.
use vstd::prelude::*;
use vstd::string::*;

use crate::clash::types::{opt_str_view, strings_view};
use crate::commands::{find_primary, primary_index};
use crate::country::{display_of, iso2_to_display};
use crate::settings::clone_opt_string;
use crate::state::{
    groups_view, nodes_view, ConnectionState, GroupKind, GroupModel, GroupView, NodeView,
    SnapshotModel, StateSnapshot,
};
use crate::text::{
    chars_of, concat, concat3, debug_opt_string, join_strings, opt_debug, owned, seq_join,
    str_eq, string_from_range,
};

verus! {

/// Everything the tray menu shows, gathered from the settings and the snapshot.
#[derive(Debug, Clone)]
pub struct MenuInputs {
    pub favorites: Vec<String>,
    pub auto_members: Vec<(GroupKind, String)>,
    pub current_now: Option<String>,
    pub current_country: Option<String>,
    pub info_label: String,
    pub tooltip: String,
}

pub struct MenuInputsModel {
    pub favorites: Seq<Seq<char>>,
    pub auto_members: Seq<(GroupKind, Seq<char>)>,
    pub current_now: Option<Seq<char>>,
    pub current_country: Option<Seq<char>>,
    pub info_label: Seq<char>,
    pub tooltip: Seq<char>,
}

pub open spec fn autos_view(v: Seq<(GroupKind, String)>) -> Seq<(GroupKind, Seq<char>)> {
    v.map_values(|e: (GroupKind, String)| (e.0, e.1@))
}

impl View for MenuInputs {
    type V = MenuInputsModel;

    open spec fn view(&self) -> MenuInputsModel {
        MenuInputsModel {
            favorites: strings_view(self.favorites@),
            auto_members: autos_view(self.auto_members@),
            current_now: opt_str_view(self.current_now),
            current_country: opt_str_view(self.current_country),
            info_label: self.info_label@,
            tooltip: self.tooltip@,
        }
    }
}

// ---------------------------------------------------------------------------
// Tooltip and info line
// ---------------------------------------------------------------------------

/// The tray tooltip.
pub open spec fn tooltip_text(connection: ConnectionState, primary: Option<GroupModel>) -> Seq<
    char,
> {
    match connection {
        ConnectionState::Lost => "Clash Tray — disconnected"@,
        ConnectionState::Degraded => "Clash Tray — degraded"@,
        ConnectionState::Connected => match primary {
            Some(p) => match p.now {
                Some(now) => "Clash Tray — "@ + now,
                None => "Clash Tray"@,
            },
            None => "Clash Tray"@,
        },
    }
}

pub open spec fn is_auto_kind(k: GroupKind) -> bool {
    k == GroupKind::UrlTest || k == GroupKind::Fallback || k == GroupKind::LoadBalance
}

/// The first automatic group named `name`.
pub open spec fn auto_group_named(gs: Seq<GroupModel>, name: Seq<char>) -> Option<GroupModel>
    decreases gs.len(),
{
    if gs.len() == 0 {
        None
    } else if gs[0].name == name && is_auto_kind(gs[0].kind) {
        Some(gs[0])
    } else {
        auto_group_named(gs.drop_first(), name)
    }
}

/// The one-line description of the current selection. When the primary
/// group selects an automatic group, that group's own selection is shown too.
pub open spec fn info_text(groups: Seq<GroupModel>, primary: Option<GroupModel>) -> Seq<char> {
    match primary {
        None => if groups.len() == 0 {
            "Connecting…"@
        } else {
            "No primary group"@
        },
        Some(p) => match p.now {
            None => p.name + ": —"@,
            Some(now) => match auto_group_named(groups, now) {
                Some(c) => now + " → "@ + match c.now {
                    Some(leaf) => leaf,
                    None => "—"@,
                },
                None => now,
            },
        },
    }
}

pub fn tooltip_for(snap: &StateSnapshot, primary: Option<&GroupView>) -> (r: String)
    ensures
        r@ == tooltip_text(snap.connection, match primary {
            Some(p) => Some(p@),
            None => None,
        }),
{
    match snap.connection {
        ConnectionState::Lost => owned("Clash Tray — disconnected"),
        ConnectionState::Degraded => owned("Clash Tray — degraded"),
        ConnectionState::Connected => match primary {
            Some(p) => match &p.now {
                Some(now) => concat("Clash Tray — ", now.as_str()),
                None => owned("Clash Tray"),
            },
            None => owned("Clash Tray"),
        },
    }
}

fn is_auto_group(g: &GroupView) -> (r: bool)
    ensures
        r == is_auto_kind(g.kind),
{
    match g.kind {
        GroupKind::UrlTest | GroupKind::Fallback | GroupKind::LoadBalance => true,
        _ => false,
    }
}

fn find_auto_group(groups: &Vec<GroupView>, name: &String) -> (r: Option<usize>)
    ensures
        match r {
            Some(i) => i < groups.len() && auto_group_named(groups_view(groups@), name@) == Some(
                groups@[i as int]@,
            ),
            None => auto_group_named(groups_view(groups@), name@) is None,
        },
{
    let ghost gv = groups_view(groups@);
    let mut i: usize = 0;
    assert(gv.skip(0) =~= gv);
    while i < groups.len()
        invariant
            gv == groups_view(groups@),
            gv.len() == groups.len(),
            i <= groups.len(),
            auto_group_named(gv, name@) == auto_group_named(gv.skip(i as int), name@),
        decreases groups.len() - i,
    {
        assert(gv.skip(i as int).drop_first() =~= gv.skip(i + 1));
        if groups[i].name == *name && is_auto_group(&groups[i]) {
            return Some(i);
        }
        i = i + 1;
    }
    None
}

pub fn info_for(snap: &StateSnapshot, primary: Option<&GroupView>) -> (r: String)
    ensures
        r@ == info_text(snap@.groups, match primary {
            Some(p) => Some(p@),
            None => None,
        }),
{
    match primary {
        None => if snap.groups.len() == 0 {
            owned("Connecting…")
        } else {
            owned("No primary group")
        },
        Some(p) => match &p.now {
            None => concat(p.name.as_str(), ": —"),
            Some(now) => match find_auto_group(&snap.groups, now) {
                Some(c) => {
                    let leaf = match &snap.groups[c].now {
                        Some(l) => l.as_str(),
                        None => "—",
                    };
                    concat3(now.as_str(), " → ", leaf)
                },
                None => now.clone(),
            },
        },
    }
}

// ---------------------------------------------------------------------------
// Menu inputs
// ---------------------------------------------------------------------------

/// The quick-switch kind of a member of proxy type `t`, for the automatic types.
pub open spec fn auto_member_kind(t: Seq<char>) -> Option<GroupKind> {
    if t == "URLTest"@ {
        Some(GroupKind::UrlTest)
    } else if t == "Fallback"@ {
        Some(GroupKind::Fallback)
    } else if t == "LoadBalance"@ {
        Some(GroupKind::LoadBalance)
    } else {
        None
    }
}

/// The automatic-group members of a group, with their kinds, in order.
pub open spec fn auto_members_of(ms: Seq<crate::state::NodeModel>) -> Seq<(GroupKind, Seq<char>)>
    decreases ms.len(),
{
    if ms.len() == 0 {
        seq![]
    } else {
        let rest = auto_members_of(ms.drop_last());
        match auto_member_kind(ms.last().kind) {
            Some(k) => rest.push((k, ms.last().name)),
            None => rest,
        }
    }
}

/// The menu inputs for a snapshot, the favourite countries and the primary
/// group's configured name.
pub open spec fn menu_inputs_of(
    snap: SnapshotModel,
    favorites: Seq<Seq<char>>,
    primary_name: Option<Seq<char>>,
) -> MenuInputsModel {
    let pi = primary_index(snap.groups, primary_name);
    let primary = match pi {
        Some(i) => Some(snap.groups[i]),
        None => None,
    };
    MenuInputsModel {
        favorites,
        auto_members: match primary {
            Some(p) => auto_members_of(p.members),
            None => seq![],
        },
        current_now: match primary {
            Some(p) => p.now,
            None => None,
        },
        current_country: match primary {
            Some(p) => p.now_country,
            None => None,
        },
        info_label: info_text(snap.groups, primary),
        tooltip: tooltip_text(snap.connection, primary),
    }
}

fn auto_kind_of(t: &str) -> (r: Option<GroupKind>)
    ensures
        r == auto_member_kind(t@),
{
    if str_eq(t, "URLTest") {
        Some(GroupKind::UrlTest)
    } else if str_eq(t, "Fallback") {
        Some(GroupKind::Fallback)
    } else if str_eq(t, "LoadBalance") {
        Some(GroupKind::LoadBalance)
    } else {
        None
    }
}

fn collect_auto_members(members: &Vec<NodeView>) -> (r: Vec<(GroupKind, String)>)
    ensures
        autos_view(r@) == auto_members_of(nodes_view(members@)),
{
    let ghost mv = nodes_view(members@);
    let mut r: Vec<(GroupKind, String)> = Vec::new();
    let mut i: usize = 0;
    assert(mv.take(0) =~= seq![]);
    while i < members.len()
        invariant
            mv == nodes_view(members@),
            mv.len() == members.len(),
            i <= members.len(),
            autos_view(r@) == auto_members_of(mv.take(i as int)),
        decreases members.len() - i,
    {
        assert(mv.take(i + 1).drop_last() =~= mv.take(i as int));
        assert(mv.take(i + 1).last() == members@[i as int]@);
        match auto_kind_of(members[i].kind.as_str()) {
            Some(k) => {
                let name = members[i].name.clone();
                r.push((k, name));
                assert(autos_view(r@) =~= auto_members_of(mv.take(i as int)).push(
                    (k, members@[i as int].name@),
                ));
            },
            None => {},
        }
        i = i + 1;
    }
    assert(mv.take(i as int) =~= mv);
    r
}

/// Gathers what the tray menu shows from the snapshot and the settings.
pub fn menu_inputs(snap: &StateSnapshot, favorites: Vec<String>, primary_name: &Option<String>) -> (r:
    MenuInputs)
    ensures
        r@ == menu_inputs_of(snap@, strings_view(favorites@), opt_str_view(*primary_name)),
{
    match find_primary(&snap.groups, primary_name) {
        Some(i) => {
            let p = &snap.groups[i];
            MenuInputs {
                favorites,
                auto_members: collect_auto_members(&p.members),
                current_now: clone_opt_string(&p.now),
                current_country: clone_opt_string(&p.now_country),
                info_label: info_for(snap, Some(p)),
                tooltip: tooltip_for(snap, Some(p)),
            }
        },
        None => {
            let r = MenuInputs {
                favorites,
                auto_members: Vec::new(),
                current_now: None,
                current_country: None,
                info_label: info_for(snap, None),
                tooltip: tooltip_for(snap, None),
            };
            assert(autos_view(r.auto_members@) =~= seq![]);
            r
        },
    }
}

// ---------------------------------------------------------------------------
// Change signature
// ---------------------------------------------------------------------------

/// The change signature, given the debug forms of the current selection and
/// of its country.
pub open spec fn signature_with(m: MenuInputsModel, now_debug: Seq<char>, country_debug: Seq<
    char,
>) -> Seq<char> {
    "info="@ + m.info_label + "|tt="@ + m.tooltip + "|now="@ + now_debug + "|country="@
        + country_debug + "|favs="@ + seq_join(m.favorites, ","@) + "|autos="@ + seq_join(
        m.auto_members.map_values(|e: (GroupKind, Seq<char>)| e.1),
        ","@,
    )
}

/// The text compared between polls to decide whether the menu must be rebuilt.
pub open spec fn signature_text(m: MenuInputsModel) -> Seq<char> {
    signature_with(m, opt_debug(m.current_now), opt_debug(m.current_country))
}

/// The change signature from already formatted debug forms of the current
/// selection and its country.
pub fn signature_from(inputs: &MenuInputs, now_debug: &str, country_debug: &str) -> (r: String)
    ensures
        r@ == signature_with(inputs@, now_debug@, country_debug@),
{
    let ghost want = autos_view(inputs.auto_members@).map_values(|e: (GroupKind, Seq<char>)| e.1);
    let mut names: Vec<String> = Vec::new();
    let mut i: usize = 0;
    while i < inputs.auto_members.len()
        invariant
            want == autos_view(inputs.auto_members@).map_values(|e: (GroupKind, Seq<char>)| e.1),
            want.len() == inputs.auto_members.len(),
            i <= inputs.auto_members.len(),
            names.len() == i,
            forall|k: int| 0 <= k < i ==> (#[trigger] names@[k])@ == want[k],
        decreases inputs.auto_members.len() - i,
    {
        names.push(inputs.auto_members[i].1.clone());
        i = i + 1;
    }
    assert(names@.map_values(|s: String| s@) =~= want);
    let mut r = owned("info=");
    r.append(inputs.info_label.as_str());
    r.append("|tt=");
    r.append(inputs.tooltip.as_str());
    r.append("|now=");
    r.append(now_debug);
    r.append("|country=");
    r.append(country_debug);
    r.append("|favs=");
    let favs = join_strings(&inputs.favorites, ",");
    r.append(favs.as_str());
    r.append("|autos=");
    let autos = join_strings(&names, ",");
    r.append(autos.as_str());
    r
}

/// The change signature of the menu inputs.
pub fn signature(inputs: &MenuInputs) -> (r: String)
    ensures
        r@ == signature_text(inputs@),
{
    let now = debug_opt_string(&inputs.current_now);
    let country = debug_opt_string(&inputs.current_country);
    signature_from(inputs, now.as_str(), country.as_str())
}

/// Whether the menu must be rebuilt for signature `sig`: true exactly when it
/// differs from the last one kept in `last`, which then holds `sig`.
pub fn take_if_changed(last: &mut String, sig: String) -> (changed: bool)
    ensures
        changed == (old(last)@ != sig@),
        final(last)@ == sig@,
{
    if *last == sig {
        false
    } else {
        *last = sig;
        true
    }
}

// ---------------------------------------------------------------------------
// Quick-switch submenu
// ---------------------------------------------------------------------------

/// One entry of the quick-switch submenu.
#[derive(Debug, Clone)]
pub enum QuickEntry {
    /// A checkable item.
    Check { id: String, label: String, checked: bool },
    Separator,
    /// The disabled hint shown when there is nothing to switch to.
    Placeholder,
}

pub enum QuickEntryModel {
    Check { id: Seq<char>, label: Seq<char>, checked: bool },
    Separator,
    Placeholder,
}

impl View for QuickEntry {
    type V = QuickEntryModel;

    open spec fn view(&self) -> QuickEntryModel {
        match self {
            QuickEntry::Check { id, label, checked } => QuickEntryModel::Check {
                id: id@,
                label: label@,
                checked: *checked,
            },
            QuickEntry::Separator => QuickEntryModel::Separator,
            QuickEntry::Placeholder => QuickEntryModel::Placeholder,
        }
    }
}

pub open spec fn entries_view(v: Seq<QuickEntry>) -> Seq<QuickEntryModel> {
    v.map_values(|e: QuickEntry| e@)
}

pub open spec fn auto_prefix(k: GroupKind) -> Seq<char> {
    match k {
        GroupKind::UrlTest => "Auto select"@,
        GroupKind::Fallback => "Failover"@,
        GroupKind::LoadBalance => "Load balance"@,
        _ => "Auto"@,
    }
}

/// The check item for an automatic member.
pub open spec fn auto_entry(k: GroupKind, name: Seq<char>, current_now: Option<Seq<char>>) -> QuickEntryModel {
    QuickEntryModel::Check {
        id: "auto:"@ + name,
        label: auto_prefix(k) + " — "@ + name,
        checked: current_now == Some(name),
    }
}

/// The current selection is one of the automatic members.
pub open spec fn now_is_auto(m: MenuInputsModel) -> bool {
    exists|i: int| 0 <= i < m.auto_members.len() && m.current_now == Some(#[trigger] m.auto_members[i].1)
}

/// The check item for a favourite country: checked when the current
/// selection is in that country and is not an automatic member.
pub open spec fn country_entry(c: Seq<char>, m: MenuInputsModel) -> QuickEntryModel {
    QuickEntryModel::Check {
        id: "quick:"@ + c,
        label: c + " — "@ + display_of(c),
        checked: m.current_country == Some(c) && !now_is_auto(m),
    }
}

/// The quick-switch submenu: the automatic members, a separator when there
/// are also favourites, the favourite countries; a placeholder when empty.
pub open spec fn quick_entries_of(m: MenuInputsModel) -> Seq<QuickEntryModel> {
    let autos = m.auto_members.map_values(|e: (GroupKind, Seq<char>)| auto_entry(e.0, e.1, m.current_now));
    let countries = m.favorites.map_values(|c: Seq<char>| country_entry(c, m));
    let sep = if autos.len() > 0 && countries.len() > 0 {
        seq![QuickEntryModel::Separator]
    } else {
        seq![]
    };
    let all = autos + sep + countries;
    if all.len() == 0 {
        seq![QuickEntryModel::Placeholder]
    } else {
        all
    }
}

fn opt_eq_str(o: &Option<String>, s: &String) -> (r: bool)
    ensures
        r == (opt_str_view(*o) == Some(s@)),
{
    match o {
        Some(x) => *x == *s,
        None => false,
    }
}

fn current_is_auto(inputs: &MenuInputs) -> (r: bool)
    ensures
        r == now_is_auto(inputs@),
{
    let ghost m = inputs@;
    let mut i: usize = 0;
    while i < inputs.auto_members.len()
        invariant
            m == inputs@,
            m.auto_members.len() == inputs.auto_members.len(),
            i <= inputs.auto_members.len(),
            forall|j: int| 0 <= j < i ==> m.current_now != Some(#[trigger] m.auto_members[j].1),
        decreases inputs.auto_members.len() - i,
    {
        if opt_eq_str(&inputs.current_now, &inputs.auto_members[i].1) {
            assert(m.current_now == Some(m.auto_members[i as int].1));
            return true;
        }
        i = i + 1;
    }
    false
}

fn prefix_for(k: GroupKind) -> (r: &'static str)
    ensures
        r@ == auto_prefix(k),
{
    match k {
        GroupKind::UrlTest => "Auto select",
        GroupKind::Fallback => "Failover",
        GroupKind::LoadBalance => "Load balance",
        _ => "Auto",
    }
}

/// The entries of the quick-switch submenu.
pub fn quick_switch_entries(inputs: &MenuInputs) -> (r: Vec<QuickEntry>)
    ensures
        entries_view(r@) == quick_entries_of(inputs@),
{
    let ghost m = inputs@;
    let ghost autos = m.auto_members.map_values(|e: (GroupKind, Seq<char>)| auto_entry(e.0, e.1, m.current_now));
    let ghost countries = m.favorites.map_values(|c: Seq<char>| country_entry(c, m));
    let mut r: Vec<QuickEntry> = Vec::new();
    let mut i: usize = 0;
    while i < inputs.auto_members.len()
        invariant
            m == inputs@,
            autos == m.auto_members.map_values(|e: (GroupKind, Seq<char>)| auto_entry(e.0, e.1, m.current_now)),
            i <= inputs.auto_members.len(),
            r.len() == i,
            autos.len() == inputs.auto_members.len(),
            entries_view(r@) == autos.take(i as int),
        decreases inputs.auto_members.len() - i,
    {
        let (k, name) = &inputs.auto_members[i];
        let id = concat("auto:", name.as_str());
        let label = concat3(prefix_for(*k), " — ", name.as_str());
        let checked = opt_eq_str(&inputs.current_now, name);
        let e = QuickEntry::Check { id, label, checked };
        assert(m.auto_members[i as int] == (*k, name@));
        assert(e@ == autos[i as int]);
        r.push(e);
        i = i + 1;
        assert(entries_view(r@) =~= autos.take(i as int));
    }
    assert(autos.take(i as int) =~= autos);
    let ghost n_autos = r.len();
    if inputs.auto_members.len() > 0 && inputs.favorites.len() > 0 {
        r.push(QuickEntry::Separator);
    }
    let ghost before = entries_view(r@);
    let any_auto = current_is_auto(inputs);
    let mut j: usize = 0;
    while j < inputs.favorites.len()
        invariant
            m == inputs@,
            countries == m.favorites.map_values(|c: Seq<char>| country_entry(c, m)),
            any_auto == now_is_auto(m),
            j <= inputs.favorites.len(),
            countries.len() == inputs.favorites.len(),
            r.len() == before.len() + j,
            entries_view(r@) == before + countries.take(j as int),
        decreases inputs.favorites.len() - j,
    {
        let c = &inputs.favorites[j];
        let id = concat("quick:", c.as_str());
        let label = concat3(c.as_str(), " — ", iso2_to_display(c.as_str()));
        let checked = opt_eq_str(&inputs.current_country, c) && !any_auto;
        let e = QuickEntry::Check { id, label, checked };
        assert(m.favorites[j as int] == c@);
        assert(e@ == countries[j as int]);
        let ghost prev = entries_view(r@);
        r.push(e);
        assert(entries_view(r@) =~= prev.push(countries[j as int]));
        assert(countries.take(j + 1) =~= countries.take(j as int).push(countries[j as int]));
        j = j + 1;
        assert(entries_view(r@) =~= before + countries.take(j as int));
    }
    assert(countries.take(j as int) =~= countries);
    if r.len() == 0 {
        r.push(QuickEntry::Placeholder);
        assert(entries_view(r@) =~= seq![QuickEntryModel::Placeholder]);
    }
    r
}

/// The label of the disabled info item at the top of the menu.
pub fn info_item_label(inputs: &MenuInputs) -> (r: String)
    ensures
        r@ == "Current: "@ + inputs.info_label@,
{
    concat("Current: ", inputs.info_label.as_str())
}

// ---------------------------------------------------------------------------
// Menu events
// ---------------------------------------------------------------------------

/// What a click on a menu item asks for.
#[derive(Debug, Clone, PartialEq, Eq)]
pub enum MenuAction {
    Refresh,
    OpenSettings,
    Quit,
    /// Quick switch to the country.
    QuickSwitch(String),
    /// Select the automatic member in the primary group.
    AutoSelect(String),
    /// Not an actionable item.
    Ignore,
}

pub enum MenuActionModel {
    Refresh,
    OpenSettings,
    Quit,
    QuickSwitch(Seq<char>),
    AutoSelect(Seq<char>),
    Ignore,
}

impl View for MenuAction {
    type V = MenuActionModel;

    open spec fn view(&self) -> MenuActionModel {
        match self {
            MenuAction::Refresh => MenuActionModel::Refresh,
            MenuAction::OpenSettings => MenuActionModel::OpenSettings,
            MenuAction::Quit => MenuActionModel::Quit,
            MenuAction::QuickSwitch(c) => MenuActionModel::QuickSwitch(c@),
            MenuAction::AutoSelect(m) => MenuActionModel::AutoSelect(m@),
            MenuAction::Ignore => MenuActionModel::Ignore,
        }
    }
}

pub open spec fn has_prefix(s: Seq<char>, p: Seq<char>) -> bool {
    p.len() <= s.len() && s.take(p.len() as int) == p
}

/// The action of the menu item with id `id`.
pub open spec fn action_of(id: Seq<char>) -> MenuActionModel {
    if id == "refresh"@ {
        MenuActionModel::Refresh
    } else if id == "settings"@ {
        MenuActionModel::OpenSettings
    } else if id == "quit"@ {
        MenuActionModel::Quit
    } else if has_prefix(id, "quick:"@) {
        MenuActionModel::QuickSwitch(id.skip(("quick:"@).len() as int))
    } else if has_prefix(id, "auto:"@) {
        MenuActionModel::AutoSelect(id.skip(("auto:"@).len() as int))
    } else {
        MenuActionModel::Ignore
    }
}

/// The rest of `v` after the prefix `p`, when `v` starts with it.
fn strip_prefix_chars(v: &Vec<char>, p: &str) -> (r: Option<String>)
    ensures
        match r {
            Some(s) => has_prefix(v@, p@) && s@ == v@.skip(p@.len() as int),
            None => !has_prefix(v@, p@),
        },
{
    let pv = chars_of(p);
    if pv.len() > v.len() {
        return None;
    }
    let mut i: usize = 0;
    while i < pv.len()
        invariant
            pv@ == p@,
            pv.len() <= v.len(),
            i <= pv.len(),
            forall|j: int| 0 <= j < i ==> v@[j] == pv@[j],
        decreases pv.len() - i,
    {
        if v[i] != pv[i] {
            assert(v@.take(pv.len() as int)[i as int] != pv@[i as int]);
            return None;
        }
        i = i + 1;
    }
    assert(v@.take(pv.len() as int) =~= pv@);
    let s = string_from_range(v, pv.len(), v.len());
    assert(v@.subrange(pv.len() as int, v.len() as int) =~= v@.skip(pv.len() as int));
    Some(s)
}

/// Decodes the id of a clicked menu item.
pub fn menu_action(id: &str) -> (r: MenuAction)
    ensures
        r@ == action_of(id@),
{
    if str_eq(id, "refresh") {
        return MenuAction::Refresh;
    }
    if str_eq(id, "settings") {
        return MenuAction::OpenSettings;
    }
    if str_eq(id, "quit") {
        return MenuAction::Quit;
    }
    let v = chars_of(id);
    if let Some(c) = strip_prefix_chars(&v, "quick:") {
        return MenuAction::QuickSwitch(c);
    }
    if let Some(m) = strip_prefix_chars(&v, "auto:") {
        return MenuAction::AutoSelect(m);
    }
    MenuAction::Ignore
}

// ---------------------------------------------------------------------------
// Popup placement
// ---------------------------------------------------------------------------

/// Where the popup goes relative to the tray icon: centred on it, above it,
/// or below it when there is no room above.
pub open spec fn popup_position_at_tray(
    tray_x: int,
    tray_y: int,
    tray_w: int,
    tray_h: int,
    win_w: int,
    win_h: int,
) -> (int, int) {
    let x = tray_x + tray_w / 2 - win_w / 2;
    let y_above = tray_y - win_h;
    (x, if y_above < 0 {
        tray_y + tray_h
    } else {
        y_above
    })
}

/// The popup position next to the tray icon's rectangle (physical pixels).
pub fn popup_position_near_tray(
    tray_x: i32,
    tray_y: i32,
    tray_w: u32,
    tray_h: u32,
    win_w: u32,
    win_h: u32,
) -> (r: (i32, i32))
    requires
        tray_w <= i32::MAX,
        tray_h <= i32::MAX,
        win_w <= i32::MAX,
        win_h <= i32::MAX,
        tray_x + tray_w / 2 <= i32::MAX,
        i32::MIN <= tray_x + tray_w / 2 - win_w / 2 <= i32::MAX,
        i32::MIN <= tray_y - win_h,
        tray_y + tray_h <= i32::MAX,
    ensures
        (r.0 as int, r.1 as int) == popup_position_at_tray(
            tray_x as int,
            tray_y as int,
            tray_w as int,
            tray_h as int,
            win_w as int,
            win_h as int,
        ),
{
    let tw = tray_w as i32;
    let th = tray_h as i32;
    let ww = win_w as i32;
    let wh = win_h as i32;
    let x = tray_x + (tw / 2) - (ww / 2);
    let y_above = tray_y - wh;
    let y = if y_above < 0 {
        tray_y + th
    } else {
        y_above
    };
    (x, y)
}

/// The popup position when the tray icon's rectangle is unknown: the
/// bottom-right corner of the monitor, 16 px from the right and 48 px from
/// the bottom.
pub fn popup_position_fallback(mon_x: i32, mon_y: i32, mon_w: u32, mon_h: u32, win_w: u32, win_h: u32) -> (r: (i32, i32))
    requires
        mon_w <= i32::MAX,
        mon_h <= i32::MAX,
        win_w <= i32::MAX,
        win_h <= i32::MAX,
        i32::MIN <= mon_x + mon_w <= i32::MAX,
        i32::MIN <= mon_x + mon_w - win_w - 16,
        mon_x + mon_w - win_w <= i32::MAX,
        i32::MIN <= mon_y + mon_h <= i32::MAX,
        i32::MIN <= mon_y + mon_h - win_h - 48,
        mon_y + mon_h - win_h <= i32::MAX,
    ensures
        r.0 == mon_x + mon_w - win_w - 16,
        r.1 == mon_y + mon_h - win_h - 48,
{
    let x = mon_x + (mon_w as i32) - (win_w as i32) - 16;
    let y = mon_y + (mon_h as i32) - (win_h as i32) - 48;
    (x, y)
}

// ---------------------------------------------------------------------------
// Laws
// ---------------------------------------------------------------------------

/// `t` is the proxy type of the automatic group kind `k`: `URLTest` for URL
/// test, `Fallback` for fallback, `LoadBalance` for load balance.
pub open spec fn is_type_of_kind(k: GroupKind, t: Seq<char>) -> bool {
    ||| (k == GroupKind::UrlTest && t == "URLTest"@)
    ||| (k == GroupKind::Fallback && t == "Fallback"@)
    ||| (k == GroupKind::LoadBalance && t == "LoadBalance"@)
}

/// `t` is one of the automatic proxy types.
pub open spec fn is_auto_type(t: Seq<char>) -> bool {
    t == "URLTest"@ || t == "Fallback"@ || t == "LoadBalance"@
}

proof fn lemma_auto_type_strings()
    ensures
        "URLTest"@ != "Fallback"@,
        "URLTest"@ != "LoadBalance"@,
        "Fallback"@ != "LoadBalance"@,
{
    reveal_strlit("URLTest");
    reveal_strlit("Fallback");
    reveal_strlit("LoadBalance");
    assert("URLTest"@.len() != "Fallback"@.len());
    assert("URLTest"@.len() != "LoadBalance"@.len());
    assert("Fallback"@.len() != "LoadBalance"@.len());
}

proof fn lemma_auto_members(ms: Seq<crate::state::NodeModel>)
    ensures
        forall|j: int| #![trigger ms[j]]
            0 <= j < ms.len() && is_auto_type(ms[j].kind) ==> exists|k: int|
                #![trigger auto_members_of(ms)[k]]
                0 <= k < auto_members_of(ms).len() && auto_members_of(ms)[k].1 == ms[j].name
                    && is_type_of_kind(auto_members_of(ms)[k].0, ms[j].kind),
        forall|k: int| #![trigger auto_members_of(ms)[k]]
            0 <= k < auto_members_of(ms).len() ==> exists|j: int| #![trigger ms[j]]
                0 <= j < ms.len() && ms[j].name == auto_members_of(ms)[k].1 && is_type_of_kind(
                    auto_members_of(ms)[k].0,
                    ms[j].kind,
                ),
    decreases ms.len(),
{
    lemma_auto_type_strings();
    if ms.len() > 0 {
        let rest = ms.drop_last();
        lemma_auto_members(rest);
        let a = auto_members_of(ms);
        let b = auto_members_of(rest);
        assert forall|k: int| 0 <= k < b.len() implies a[k] == b[k] by {}
        assert forall|j: int| #![trigger ms[j]]
            0 <= j < ms.len() && is_auto_type(ms[j].kind) implies exists|k: int| #![trigger a[k]]
                0 <= k < a.len() && a[k].1 == ms[j].name && is_type_of_kind(a[k].0, ms[j].kind) by {
            if j < ms.len() - 1 {
                assert(rest[j] == ms[j]);
                let k = choose|k: int|
                    0 <= k < b.len() && b[k].1 == rest[j].name && is_type_of_kind(b[k].0, rest[j].kind);
                assert(a[k] == b[k]);
            } else {
                assert(a[a.len() - 1].1 == ms[j].name);
            }
        }
        assert forall|k: int| #![trigger a[k]] 0 <= k < a.len() implies exists|j: int|
            #![trigger ms[j]]
            0 <= j < ms.len() && ms[j].name == a[k].1 && is_type_of_kind(a[k].0, ms[j].kind) by {
            if k < b.len() {
                let j = choose|j: int|
                    0 <= j < rest.len() && rest[j].name == b[k].1 && is_type_of_kind(b[k].0, rest[j].kind);
                assert(ms[j] == rest[j]);
            } else {
                let j = ms.len() - 1;
                assert(ms[j] == ms.last());
                assert(ms[j].name == a[k].1);
            }
        }
    }
}

/// The automatic entries of the menu inputs are the primary group's members
/// of type `URLTest`, `Fallback` or `LoadBalance`: each such member is listed
/// with its kind, and nothing else is listed.
pub proof fn law_auto_members_are_automatic_groups(
    snap: SnapshotModel,
    favorites: Seq<Seq<char>>,
    primary_name: Option<Seq<char>>,
    p: int,
)
    requires
        primary_index(snap.groups, primary_name) == Some(p),
    ensures
        ({
            let ms = snap.groups[p].members;
            let am = menu_inputs_of(snap, favorites, primary_name).auto_members;
            &&& forall|j: int| #![trigger ms[j]]
                0 <= j < ms.len() && is_auto_type(ms[j].kind) ==> exists|k: int| #![trigger am[k]]
                    0 <= k < am.len() && am[k].1 == ms[j].name && is_type_of_kind(am[k].0, ms[j].kind)
            &&& forall|k: int| #![trigger am[k]]
                0 <= k < am.len() ==> exists|j: int| #![trigger ms[j]]
                    0 <= j < ms.len() && ms[j].name == am[k].1 && is_type_of_kind(am[k].0, ms[j].kind)
        }),
{
    lemma_auto_members(snap.groups[p].members);
}

/// The id of a favourite country's item decodes back to a quick switch to it.
pub proof fn law_country_item_round_trip(c: Seq<char>)
    ensures
        action_of("quick:"@ + c) == MenuActionModel::QuickSwitch(c),
{
    reveal_strlit("quick:");
    reveal_strlit("refresh");
    reveal_strlit("settings");
    reveal_strlit("quit");
    let id = "quick:"@ + c;
    assert(id.take(6) =~= "quick:"@);
    assert(id.skip(6) =~= c);
    assert(id != "refresh"@) by {
        if id.len() == 7 {
            assert(id[0] != "refresh"@[0]);
        }
    }
    assert(id != "settings"@) by {
        if id.len() == 8 {
            assert(id[0] != "settings"@[0]);
        }
    }
    assert(id != "quit"@) by {
        assert(id.len() >= 6);
    }
}

/// The id of an automatic member's item decodes back to selecting it.
pub proof fn law_auto_item_round_trip(name: Seq<char>)
    ensures
        action_of("auto:"@ + name) == MenuActionModel::AutoSelect(name),
{
    reveal_strlit("auto:");
    reveal_strlit("quick:");
    reveal_strlit("refresh");
    reveal_strlit("settings");
    reveal_strlit("quit");
    let id = "auto:"@ + name;
    assert(id.take(5) =~= "auto:"@);
    assert(id.skip(5) =~= name);
    assert(!has_prefix(id, "quick:"@)) by {
        if id.len() >= 6 {
            assert(id.take(6)[0] != "quick:"@[0]);
        }
    }
    assert(id != "refresh"@) by {
        if id.len() == 7 {
            assert(id[0] != "refresh"@[0]);
        }
    }
    assert(id != "settings"@) by {
        if id.len() == 8 {
            assert(id[0] != "settings"@[0]);
        }
    }
    assert(id != "quit"@) by {
        if id.len() == 4 {
            assert(false);
        }
    }
}

/// The submenu is never empty: without automatic members and favourites it
/// shows the placeholder.
pub proof fn law_quick_menu_never_empty(m: MenuInputsModel)
    ensures
        quick_entries_of(m).len() >= 1,
        m.auto_members.len() == 0 && m.favorites.len() == 0 ==> quick_entries_of(m) == seq![
            QuickEntryModel::Placeholder,
        ],
{
}

pub open spec fn is_checked(e: QuickEntryModel) -> bool {
    match e {
        QuickEntryModel::Check { checked, .. } => checked,
        _ => false,
    }
}

/// The check mark sits on an automatic member or on a favourite country,
/// never on both kinds at once.
pub proof fn law_check_marks_exclusive(m: MenuInputsModel, i: int, j: int)
    requires
        0 <= i < m.auto_members.len(),
        0 <= j < m.favorites.len(),
    ensures
        !(is_checked(auto_entry(m.auto_members[i].0, m.auto_members[i].1, m.current_now))
            && is_checked(country_entry(m.favorites[j], m))),
{
    if is_checked(auto_entry(m.auto_members[i].0, m.auto_members[i].1, m.current_now)) {
        assert(m.current_now == Some(m.auto_members[i].1));
        assert(now_is_auto(m));
    }
}

} // verus!
