use clash_tray::country::{
    bracketed_code, chinese_keyword, decode_flag_emoji, english_keyword, english_keyword_in,
    iso2_to_display, iso2_to_flag, is_known, parse_country, prefix_code,
};

#[test]
fn flag_decoding() {
    assert_eq!(decode_flag_emoji("x 🇩🇪 🇫🇷"), Some(('D', 'E')));
    assert_eq!(decode_flag_emoji("🇦"), None);
    assert_eq!(decode_flag_emoji(""), None);
}

#[test]
fn flag_round_trip_for_known_codes() {
    for c in ["HK", "JP", "SG", "TW", "US", "GB", "MX"] {
        let f = iso2_to_flag(c);
        let mut it = c.chars();
        let pair = (it.next().unwrap(), it.next().unwrap());
        assert_eq!(decode_flag_emoji(&f), Some(pair));
        assert_eq!(parse_country(&f, &Vec::new()), c);
    }
    assert_eq!(iso2_to_flag("HKG"), "🏴");
    assert_eq!(iso2_to_flag(""), "🏴");
    assert_eq!(iso2_to_flag("H1"), "🏴");
}

#[test]
fn bracket_forms() {
    assert_eq!(bracketed_code("x ( hk ) y"), Some(('H', 'K')));
    assert_eq!(bracketed_code("「jp」"), Some(('J', 'P')));
    assert_eq!(bracketed_code("［Tw］"), Some(('T', 'W')));
    assert_eq!(bracketed_code("[H] [US]"), Some(('U', 'S')));
    assert_eq!(bracketed_code("[USA]"), None);
    assert_eq!(bracketed_code("(US"), None);
}

#[test]
fn prefix_forms() {
    assert_eq!(prefix_code("  hk\t1"), Some(('H', 'K')));
    assert_eq!(prefix_code("Tokyo"), None);
    assert_eq!(prefix_code("US-"), None);
    assert_eq!(prefix_code("us"), None);
}

#[test]
fn known_codes() {
    assert!(is_known("HK"));
    assert!(is_known("MX"));
    assert!(!is_known("ZZ"));
    assert!(!is_known("hk"));
    assert!(!is_known("HKG"));
}

#[test]
fn keywords_longest_wins() {
    assert_eq!(chinese_keyword("瑞士苏黎世"), Some(('C', 'H')));
    assert_eq!(chinese_keyword("印度尼西亚"), Some(('I', 'D')));
    assert_eq!(chinese_keyword("none"), None);
    assert_eq!(english_keyword_in("united states of america"), Some(('U', 'S')));
    assert_eq!(english_keyword_in("Tokyo"), None);
    // upper case input is lower-cased before matching
    assert_eq!(english_keyword("NEW YORK 02"), Some(('U', 'S')));
    assert_eq!(english_keyword("HONG KONG"), Some(('H', 'K')));
}

#[test]
fn override_keeps_non_code_values() {
    let o = vec![("n".to_string(), "x1".to_string())];
    assert_eq!(parse_country("n", &o), "X1");
    assert_eq!(parse_country("m", &o), "XX");
}

#[test]
fn display_names() {
    assert_eq!(iso2_to_display("AE"), "UAE");
    assert_eq!(iso2_to_display("KR"), "South Korea");
    assert_eq!(iso2_to_display("ZZ"), "Unknown");
    assert_eq!(iso2_to_display("jp"), "Unknown");
    assert_eq!(iso2_to_display(""), "Unknown");
}

#[test]
fn display_name_exactly_for_known_codes() {
    for a in 'A'..='Z' {
        for b in 'A'..='Z' {
            let code: String = [a, b].iter().collect();
            assert_eq!(iso2_to_display(&code) != "Unknown", is_known(&code), "{}", code);
        }
    }
    assert_eq!(iso2_to_display("jp"), "Unknown");
    assert_eq!(iso2_to_display("XX"), "Unknown");
    assert_eq!(iso2_to_display("JPN"), "Unknown");
    assert_eq!(iso2_to_display("DE"), "Germany");
}

#[test]
fn override_found_wherever_listed() {
    let ovr = vec![
        ("HK-01".to_string(), "sg".to_string()),
        ("JP-01".to_string(), "us".to_string()),
        ("TW-01".to_string(), "kr".to_string()),
    ];
    assert_eq!(parse_country("JP-01", &ovr), "US");
    assert_eq!(parse_country("TW-01", &ovr), "KR");
    assert_eq!(parse_country("HK-01", &ovr), "SG");
    assert_eq!(parse_country("HK-02", &ovr), "HK");
}
