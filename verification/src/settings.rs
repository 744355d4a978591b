//! User settings.
use vstd::prelude::*;

use crate::clash::types::{keys_distinct, opt_str_view, strings_view};
use crate::country::overrides_view;
use crate::text::owned;

verus! {

#[derive(Debug, Clone)]
pub struct Settings {
    pub clash_url: String,
    pub secret: Option<String>,
    pub poll_interval_ms: u64,
    pub primary_group: Option<String>,
    pub favorites: Vec<String>,
    /// Node name to country code; at most one entry per node name (see
    /// `well_formed`).
    pub country_overrides: Vec<(String, String)>,
    pub notify_auto_switch: bool,
    pub notify_connection: bool,
    pub start_on_login: bool,
}

pub struct SettingsModel {
    pub clash_url: Seq<char>,
    pub secret: Option<Seq<char>>,
    pub poll_interval_ms: u64,
    pub primary_group: Option<Seq<char>>,
    pub favorites: Seq<Seq<char>>,
    pub country_overrides: Seq<(Seq<char>, Seq<char>)>,
    pub notify_auto_switch: bool,
    pub notify_connection: bool,
    pub start_on_login: bool,
}

impl View for Settings {
    type V = SettingsModel;

    open spec fn view(&self) -> SettingsModel {
        SettingsModel {
            clash_url: self.clash_url@,
            secret: opt_str_view(self.secret),
            poll_interval_ms: self.poll_interval_ms,
            primary_group: opt_str_view(self.primary_group),
            favorites: strings_view(self.favorites@),
            country_overrides: overrides_view(self.country_overrides@),
            notify_auto_switch: self.notify_auto_switch,
            notify_connection: self.notify_connection,
            start_on_login: self.start_on_login,
        }
    }
}

impl SettingsModel {
    /// Each node name has at most one country override.
    pub open spec fn well_formed(self) -> bool {
        keys_distinct(self.country_overrides)
    }
}

/// The settings a fresh install starts with.
pub open spec fn default_settings() -> SettingsModel {
    SettingsModel {
        clash_url: "http://192.168.8.1:9090"@,
        secret: None,
        poll_interval_ms: 2000,
        primary_group: None,
        favorites: seq!["HK"@, "JP"@, "SG"@, "TW"@, "US"@],
        country_overrides: seq![],
        notify_auto_switch: true,
        notify_connection: true,
        start_on_login: false,
    }
}

impl Default for Settings {
    fn default() -> (r: Self)
        ensures
            r@ == default_settings(),
            r@.well_formed(),
    {
        let mut favorites: Vec<String> = Vec::new();
        favorites.push(owned("HK"));
        favorites.push(owned("JP"));
        favorites.push(owned("SG"));
        favorites.push(owned("TW"));
        favorites.push(owned("US"));
        let r = Settings {
            clash_url: owned("http://192.168.8.1:9090"),
            secret: None,
            poll_interval_ms: 2000,
            primary_group: None,
            favorites,
            country_overrides: Vec::new(),
            notify_auto_switch: true,
            notify_connection: true,
            start_on_login: false,
        };
        assert(r@.favorites =~= default_settings().favorites);
        assert(r@.country_overrides =~= default_settings().country_overrides);
        r
    }
}

pub fn opt_string_eq(a: &Option<String>, b: &Option<String>) -> (r: bool)
    ensures
        r == (opt_str_view(*a) == opt_str_view(*b)),
{
    match (a, b) {
        (Some(x), Some(y)) => *x == *y,
        (None, None) => true,
        _ => false,
    }
}

pub fn clone_opt_string(a: &Option<String>) -> (r: Option<String>)
    ensures
        opt_str_view(r) == opt_str_view(*a),
{
    match a {
        Some(x) => Some(x.clone()),
        None => None,
    }
}

/// Saving `new` over `cur` needs a new controller client exactly when the
/// URL or the secret changed.
pub fn client_needs_rebuild(cur: &Settings, new: &Settings) -> (r: bool)
    ensures
        r == (cur@.clash_url != new@.clash_url || cur@.secret != new@.secret),
{
    !(cur.clash_url == new.clash_url) || !opt_string_eq(&cur.secret, &new.secret)
}

} // verus!
