//! The data the Clash / Mihomo external controller answers with.
use vstd::prelude::*;

verus! {

/// One measured delay of a proxy.
#[derive(Debug, Clone)]
pub struct DelayHistory {
    pub time: String,
    pub delay: u32,
}

pub struct DelayModel {
    pub time: Seq<char>,
    pub delay: u32,
}

impl View for DelayHistory {
    type V = DelayModel;

    open spec fn view(&self) -> DelayModel {
        DelayModel { time: self.time@, delay: self.delay }
    }
}

/// A proxy node or a proxy group, as `/proxies` lists it.
#[derive(Debug, Clone)]
pub struct Proxy {
    pub name: String,
    pub proxy_type: String,
    pub now: Option<String>,
    pub all: Vec<String>,
    pub history: Vec<DelayHistory>,
    pub udp: bool,
}

pub struct ProxyModel {
    pub name: Seq<char>,
    pub proxy_type: Seq<char>,
    pub now: Option<Seq<char>>,
    pub all: Seq<Seq<char>>,
    pub history: Seq<DelayModel>,
    pub udp: bool,
}

pub open spec fn opt_str_view(o: Option<String>) -> Option<Seq<char>> {
    match o {
        Some(s) => Some(s@),
        None => None,
    }
}

pub open spec fn strings_view(v: Seq<String>) -> Seq<Seq<char>> {
    v.map_values(|s: String| s@)
}

impl View for Proxy {
    type V = ProxyModel;

    open spec fn view(&self) -> ProxyModel {
        ProxyModel {
            name: self.name@,
            proxy_type: self.proxy_type@,
            now: opt_str_view(self.now),
            all: strings_view(self.all@),
            history: self.history@.map_values(|h: DelayHistory| h@),
            udp: self.udp,
        }
    }
}

/// No two entries of a keyed list share a key: the list stands for a map.
pub open spec fn keys_distinct<K, V>(s: Seq<(K, V)>) -> bool {
    forall|i: int, j: int| #![trigger s[i], s[j]] 0 <= i < j < s.len() ==> s[i].0 != s[j].0
}

/// The `/proxies` answer: every proxy and group, keyed by name. The keys are
/// distinct, as in the JSON object they come from (see `well_formed`).
#[derive(Debug, Clone)]
pub struct ProxiesResponse {
    pub proxies: Vec<(String, Proxy)>,
}

pub open spec fn proxies_view(v: Seq<(String, Proxy)>) -> Seq<(Seq<char>, ProxyModel)> {
    v.map_values(|e: (String, Proxy)| (e.0@, e.1@))
}

impl ProxiesResponse {
    /// Each proxy name is listed once.
    pub open spec fn well_formed(&self) -> bool {
        keys_distinct(proxies_view(self.proxies@))
    }
}

/// The `/version` answer.
#[derive(Debug, Clone)]
pub struct VersionInfo {
    pub version: String,
    pub premium: bool,
    pub meta: bool,
}

/// The part of the `/connections` answer the app reads: the traffic totals,
/// the memory use when reported, and how many connections are open.
#[derive(Debug, Clone, Copy, PartialEq, Eq)]
pub struct ConnectionsResponse {
    pub download_total: u64,
    pub upload_total: u64,
    pub memory: Option<u64>,
    pub connection_count: usize,
}

} // verus!
