use clash_tray::clash::endpoint::{
    group_delay_path, select_path, ClashEndpoint, CONNECTIONS_PATH, PROXIES_PATH, VERSION_PATH,
};
use clash_tray::clash::errors::{body_error, check_status, ClashError};
use clash_tray::settings::{client_needs_rebuild, Settings};
use clash_tray::state::{ConnectionState, StateSnapshot, TrafficStats};
use clash_tray::text::{join_strings, trim_string};

#[test]
fn endpoint_trims_trailing_slashes() {
    let e = ClashEndpoint::new("http://192.168.8.1:9090///", Some("s3cret".to_string()));
    assert_eq!(e.base(), "http://192.168.8.1:9090");
    assert_eq!(e.secret().map(|s| s.as_str()), Some("s3cret"));
    assert_eq!(e.url(PROXIES_PATH), "http://192.168.8.1:9090/proxies");
    assert_eq!(e.url(VERSION_PATH), "http://192.168.8.1:9090/version");
    assert_eq!(e.url(CONNECTIONS_PATH), "http://192.168.8.1:9090/connections");
    let bare = ClashEndpoint::new("http://h", None);
    assert_eq!(bare.base(), "http://h");
    assert!(bare.secret().is_none());
    assert_eq!(ClashEndpoint::new("///", None).base(), "");
}

#[test]
fn request_paths() {
    assert_eq!(select_path("PROXY"), "/proxies/PROXY");
    assert_eq!(
        group_delay_path("AUTO"),
        "/group/AUTO/delay?url=http%3A%2F%2Fwww.gstatic.com%2Fgenerate_204&timeout=3000"
    );
}

#[test]
fn status_mapping() {
    assert_eq!(check_status(200), Ok(()));
    assert_eq!(check_status(204), Ok(()));
    assert_eq!(check_status(299), Ok(()));
    assert_eq!(check_status(401), Err(ClashError::Auth));
    assert_eq!(check_status(500), Err(ClashError::BadStatus(500)));
    assert_eq!(check_status(199), Err(ClashError::BadStatus(199)));
    assert_eq!(check_status(300), Err(ClashError::BadStatus(300)));
}

#[test]
fn error_messages() {
    assert_eq!(ClashError::Auth.message(), "auth required or wrong secret");
    assert_eq!(ClashError::BadStatus(500).message(), "unexpected status 500");
    assert_eq!(ClashError::BadStatus(7).message(), "unexpected status 7");
    assert_eq!(ClashError::Network("timed out".to_string()).message(), "network error: timed out");
    assert_eq!(ClashError::Decode("bad".to_string()).message(), "decode error: bad");
    assert_eq!(body_error(true, "x".to_string()), ClashError::Decode("x".to_string()));
    assert_eq!(body_error(false, "y".to_string()), ClashError::Network("y".to_string()));
}

#[test]
fn default_settings() {
    let s = Settings::default();
    assert_eq!(s.clash_url, "http://192.168.8.1:9090");
    assert_eq!(s.secret, None);
    assert_eq!(s.poll_interval_ms, 2000);
    assert_eq!(s.primary_group, None);
    assert_eq!(s.favorites, vec!["HK", "JP", "SG", "TW", "US"]);
    assert!(s.country_overrides.is_empty());
    assert!(s.notify_auto_switch);
    assert!(s.notify_connection);
    assert!(!s.start_on_login);
}

#[test]
fn client_rebuilt_only_for_url_or_secret() {
    let a = Settings::default();
    let mut b = Settings::default();
    b.poll_interval_ms = 5000;
    b.favorites.clear();
    assert!(!client_needs_rebuild(&a, &b));
    b.secret = Some("x".to_string());
    assert!(client_needs_rebuild(&a, &b));
    let mut c = Settings::default();
    c.clash_url = "http://other".to_string();
    assert!(client_needs_rebuild(&a, &c));
}

#[test]
fn default_snapshot_is_lost_and_empty() {
    let s = StateSnapshot::default();
    assert_eq!(s.connection, ConnectionState::Lost);
    assert_eq!(s.fetched_at, 0);
    assert!(s.groups.is_empty());
    assert_eq!(s.leaf_count, 0);
    assert!(s.recent_auto_switches.is_empty());
    assert_eq!(s.traffic, TrafficStats::default());
    assert_eq!(s.traffic.memory, None);
}

#[test]
fn text_helpers() {
    assert_eq!(trim_string("\u{3000} a b \t\n"), "a b");
    assert_eq!(trim_string("   "), "");
    assert_eq!(join_strings(&vec!["a".to_string(), "b".to_string()], ","), "a,b");
    assert_eq!(join_strings(&vec![], ","), "");
}
