use clash_tray::country::{iso2_to_display, iso2_to_flag, parse_country};


fn empty() -> Vec<(String, String)> {
    Vec::new()
}

fn p(name: &str) -> String {
    parse_country(name, &empty())
}

// --- overrides ---
#[test]
fn override_wins_over_everything() {
    let mut o = Vec::new();
    o.push(("🇭🇰 Tokyo".to_string(), "JP".to_string()));
    assert_eq!(parse_country("🇭🇰 Tokyo", &o), "JP");
}

#[test]
fn override_is_uppercased() {
    let mut o = Vec::new();
    o.push(("weird".to_string(), "hk".to_string()));
    assert_eq!(parse_country("weird", &o), "HK");
}

// --- flag emoji ---
#[test]
fn flag_emoji_hk() {
    assert_eq!(p("🇭🇰 香港 01"), "HK");
}
#[test]
fn flag_emoji_jp() {
    assert_eq!(p("🇯🇵 Tokyo"), "JP");
}
#[test]
fn flag_emoji_us() {
    assert_eq!(p("🇺🇸 美国 4K"), "US");
}
#[test]
fn flag_emoji_sg() {
    assert_eq!(p("🇸🇬 SG · Premium"), "SG");
}

// --- bracketed ---
#[test]
fn bracketed_jp() {
    assert_eq!(p("[JP]Tokyo-Premium-2"), "JP");
}
#[test]
fn bracketed_hk_lowercase() {
    assert_eq!(p("[hk] node"), "HK");
}
#[test]
fn bracketed_parens() {
    assert_eq!(p("(US) Netflix"), "US");
}
#[test]
fn bracketed_fullwidth() {
    assert_eq!(p("【KR】 Seoul"), "KR");
}
#[test]
fn bracketed_unknown_code_falls_through() {
    // [ZZ] is not in known set; should fall through and miss country
    assert_eq!(p("[ZZ] random"), "XX");
}

// --- prefix ---
#[test]
fn prefix_us_netflix() {
    assert_eq!(p("US_Netflix_03"), "US");
}
#[test]
fn prefix_hk_iepl() {
    assert_eq!(p("HK-IEPL-01"), "HK");
}
#[test]
fn prefix_jp_tokyo() {
    assert_eq!(p("JP_Tokyo"), "JP");
}
#[test]
fn prefix_us01_no_sep() {
    assert_eq!(p("US01"), "US");
}
#[test]
fn prefix_unknown_code_falls_through() {
    assert_eq!(p("ZZ-01"), "XX");
}
#[test]
fn prefix_skipped_when_followed_by_non_ascii() {
    // LA香港01直 — "LA" is not followed by ASCII alphanumeric ('香'), so prefix doesn't match,
    // and Chinese matcher picks 香港 → HK.
    assert_eq!(p("LA香港01直"), "HK");
}

// --- Chinese keywords (from live corpus) ---
#[test]
fn cn_hongkong_corpus() {
    assert_eq!(p("level1-香港01"), "HK");
}
#[test]
fn cn_hongkong_anytls() {
    assert_eq!(p("香港AnyTLS测试01"), "HK");
}
#[test]
fn cn_hongkong_direct() {
    assert_eq!(p("香港直连1"), "HK");
}
#[test]
fn cn_taiwan_corpus() {
    assert_eq!(p("level1-台湾01"), "TW");
}
#[test]
fn cn_taiwan_v2() {
    assert_eq!(p("V2-台湾 03"), "TW");
}
#[test]
fn cn_singapore_corpus() {
    assert_eq!(p("level1-新加坡01-NF"), "SG");
}
#[test]
fn cn_japan_corpus() {
    assert_eq!(p("level1-日本01-NF"), "JP");
}
#[test]
fn cn_japan_osaka() {
    assert_eq!(p("日本 大阪 BGP"), "JP");
}
#[test]
fn cn_france() {
    assert_eq!(p("level1-法国01"), "FR");
}
#[test]
fn cn_korea() {
    assert_eq!(p("level1-韩国01"), "KR");
}
#[test]
fn cn_malay_two_char() {
    // Live corpus uses 马来 (not 马来西亚) — must still resolve to MY.
    assert_eq!(p("level1-马来01"), "MY");
}
#[test]
fn cn_malaysia_four_char() {
    assert_eq!(p("马来西亚-Premium"), "MY");
}
#[test]
fn cn_germany() {
    assert_eq!(p("德国-Frankfurt 1"), "DE");
}
#[test]
fn cn_uae_via_dubai() {
    assert_eq!(p("迪拜 1"), "AE");
}
#[test]
fn cn_uae_full() {
    assert_eq!(p("阿联酋 1"), "AE");
}
#[test]
fn cn_argentina_full_over_single_char() {
    // 阿根廷 (3-char) must win over 阿 (single-char) which would also map to AR — same answer
    // but verifies longest-match path runs without bug.
    assert_eq!(p("阿根廷-1"), "AR");
}
#[test]
fn cn_indonesia_over_india() {
    // 印尼 (2-char ID) must beat 印 (1-char IN).
    assert_eq!(p("印尼-Jakarta"), "ID");
}
#[test]
fn cn_indonesia_long() {
    assert_eq!(p("印度尼西亚-1"), "ID");
}
#[test]
fn cn_india_single_char_via_full() {
    assert_eq!(p("印度-Mumbai"), "IN");
}
#[test]
fn cn_sweden_over_swiss() {
    // 瑞典 (SE) must win over 瑞士 (CH) when both could partial-match — only 瑞典 is present.
    assert_eq!(p("瑞典-Stockholm"), "SE");
}

// --- English keywords ---
#[test]
fn en_tokyo() {
    assert_eq!(p("Tokyo-Premium"), "JP");
}
#[test]
fn en_los_angeles() {
    assert_eq!(p("Los Angeles 4K"), "US");
}
#[test]
fn en_united_kingdom_over_kingdom() {
    assert_eq!(p("United Kingdom Premium"), "GB");
}
#[test]
fn en_frankfurt() {
    assert_eq!(p("Frankfurt-DE-1"), "DE");
}
#[test]
fn en_singapore_case_insensitive() {
    assert_eq!(p("singapore-edge"), "SG");
}
#[test]
fn en_amsterdam() {
    assert_eq!(p("Amsterdam-NL"), "NL");
}

// --- specials & fallback ---
#[test]
fn special_direct() {
    assert_eq!(p("DIRECT"), "XX");
}
#[test]
fn special_reject() {
    assert_eq!(p("REJECT"), "XX");
}
#[test]
fn special_auto() {
    assert_eq!(p("Auto"), "XX");
}
#[test]
fn special_node_picker() {
    assert_eq!(p("🚀 节点选择"), "XX");
}

// --- ordering checks ---
#[test]
fn flag_beats_prefix() {
    // "AU" prefix would say AU, but a 🇯🇵 flag earlier should win.
    assert_eq!(p("🇯🇵 AU-fake-prefix"), "JP");
}
#[test]
fn bracket_beats_chinese() {
    assert_eq!(p("[US] 香港路由"), "US");
}

// --- iso2_to_flag / iso2_to_display sanity ---
#[test]
fn flag_hk() {
    assert_eq!(iso2_to_flag("HK"), "🇭🇰");
}
#[test]
fn flag_xx_invalid() {
    // "XX" produces a valid emoji sequence even though it isn't a real country.
    // The point is just: not "🏴" (which is for bad input).
    assert_ne!(iso2_to_flag("XX"), "🏴");
}
#[test]
fn flag_lowercase_is_invalid() {
    assert_eq!(iso2_to_flag("hk"), "🏴");
}
#[test]
fn display_known() {
    assert_eq!(iso2_to_display("JP"), "Japan");
    assert_eq!(iso2_to_display("XX"), "Unknown");
}
