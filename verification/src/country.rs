//! Country detection from proxy node names, and the flag / display helpers.
use vstd::prelude::*;
use vstd::string::*;

use crate::clash::types::keys_distinct;

use crate::text::{
    ascii_lower_seq, ascii_upper, ascii_upper_seq, char_from_u32, chars_of, contains_chars, has_infix, is_alnum, is_alpha, is_ascii_alnum,
    is_ascii_alpha, is_ascii_digit, is_ascii_seq, is_ascii_upper, is_digit, is_upper, is_whitespace, is_ws,
    push_char, skip_leading_ws, str_to_lowercase, str_to_uppercase, string_of_pair, to_ascii_upper,
    to_lowercase, to_uppercase, trim_start,
};

verus! {

// ---------------------------------------------------------------------------
// Model
// ---------------------------------------------------------------------------

/// A keyword table viewed as (keyword characters, code) pairs.
pub open spec fn keyword_view(v: Seq<(&str, (char, char))>) -> Seq<(Seq<char>, (char, char))> {
    v.map_values(|e: (&str, (char, char))| (e.0@, e.1))
}

/// A display table viewed as (code, name characters) pairs.
pub open spec fn display_view(v: Seq<((char, char), &str)>) -> Seq<((char, char), Seq<char>)> {
    v.map_values(|e: ((char, char), &str)| (e.0, e.1@))
}

pub open spec fn pair_seq(c: (char, char)) -> Seq<char> {
    seq![c.0, c.1]
}

pub open spec fn is_known_code(c: (char, char)) -> bool {
    known_codes().contains(c)
}

/// The code that stands for "no country found".
pub open spec fn unknown_code() -> Seq<char> {
    seq!['X', 'X']
}

/// A Regional Indicator Symbol, U+1F1E6 (`A`) to U+1F1FF (`Z`).
pub open spec fn is_regional(c: char) -> bool {
    0x1F1E6 <= (c as u32) <= 0x1F1FF
}

/// The ASCII letter a Regional Indicator Symbol stands for.
pub open spec fn regional_letter(c: char) -> char {
    ((c as u32) - 0x1F1E6 + 65) as char
}

/// Two Regional Indicator Symbols start at index `i`.
pub open spec fn flag_at(s: Seq<char>, i: int) -> bool {
    0 <= i && i + 1 < s.len() && is_regional(s[i]) && is_regional(s[i + 1])
}

pub open spec fn first_flag(s: Seq<char>, i: int) -> bool {
    flag_at(s, i) && forall|j: int| 0 <= j < i ==> !#[trigger] flag_at(s, j)
}

/// The letters of the first flag emoji in `s`.
pub open spec fn flag_code(s: Seq<char>) -> Option<(char, char)> {
    if exists|i: int| first_flag(s, i) {
        let i = choose|i: int| first_flag(s, i);
        Some((regional_letter(s[i]), regional_letter(s[i + 1])))
    } else {
        None
    }
}

pub open spec fn is_opener(c: char) -> bool {
    c == '[' || c == '(' || c == '\u{ff3b}' || c == '\u{3010}' || c == '\u{300c}'
}

pub open spec fn is_closer(c: char) -> bool {
    c == ']' || c == ')' || c == '\u{ff3d}' || c == '\u{3011}' || c == '\u{300d}'
}

/// The first index at or after `j` that does not hold white space (or the length).
pub open spec fn skip_ws(s: Seq<char>, j: int) -> int
    decreases s.len() - j,
{
    if 0 <= j < s.len() && is_ws(s[j]) {
        skip_ws(s, j + 1)
    } else {
        j
    }
}

/// An opener at `i`, then (after optional white space) two ASCII letters,
/// then (after optional white space) a closer.
pub open spec fn bracket_at(s: Seq<char>, i: int) -> bool {
    &&& 0 <= i < s.len()
    &&& is_opener(s[i])
    &&& {
        let j = skip_ws(s, i + 1);
        &&& j + 1 < s.len()
        &&& is_ascii_alpha(s[j])
        &&& is_ascii_alpha(s[j + 1])
        &&& {
            let k = skip_ws(s, j + 2);
            k < s.len() && is_closer(s[k])
        }
    }
}

pub open spec fn first_bracket(s: Seq<char>, i: int) -> bool {
    bracket_at(s, i) && forall|j: int| 0 <= j < i ==> !#[trigger] bracket_at(s, j)
}

/// The upper-cased letters inside the first bracketed code of `s`.
pub open spec fn bracket_code(s: Seq<char>) -> Option<(char, char)> {
    if exists|i: int| first_bracket(s, i) {
        let i = choose|i: int| first_bracket(s, i);
        let j = skip_ws(s, i + 1);
        Some((ascii_upper(s[j]), ascii_upper(s[j + 1])))
    } else {
        None
    }
}

pub open spec fn is_prefix_sep(c: char) -> bool {
    c == '-' || c == '_' || c == ' ' || c == '\t'
}

/// Two ASCII letters at the start of the trimmed name, followed by a digit, or
/// by a separator and an ASCII letter or digit; their upper case.
pub open spec fn name_prefix_code(s: Seq<char>) -> Option<(char, char)> {
    let t = trim_start(s);
    if t.len() >= 3 && is_ascii_alpha(t[0]) && is_ascii_alpha(t[1]) && (is_ascii_digit(t[2]) || (
    is_prefix_sep(t[2]) && t.len() > 3 && is_ascii_alnum(t[3]))) {
        Some((ascii_upper(t[0]), ascii_upper(t[1])))
    } else {
        None
    }
}

/// Keyword `b` occurs in `name`, no keyword among the first `n` that occurs is
/// longer, and every one before `b` that occurs is strictly shorter.
pub open spec fn best_in(
    name: Seq<char>,
    kws: Seq<(Seq<char>, (char, char))>,
    n: int,
    b: int,
) -> bool {
    &&& 0 <= b < n <= kws.len()
    &&& has_infix(name, kws[b].0)
    &&& forall|j: int|
        0 <= j < n && #[trigger] has_infix(name, kws[j].0) ==> kws[j].0.len() <= kws[b].0.len()
            && (j < b ==> kws[j].0.len() < kws[b].0.len())
}

/// The code of the longest keyword found in `name`; the earliest in the table
/// among equally long ones.
pub open spec fn keyword_code(name: Seq<char>, kws: Seq<(Seq<char>, (char, char))>) -> Option<
    (char, char),
> {
    if exists|b: int| best_in(name, kws, kws.len() as int, b) {
        let b = choose|b: int| best_in(name, kws, kws.len() as int, b);
        Some(kws[b].1)
    } else {
        None
    }
}

/// The value of the first override whose key is `name`.
pub open spec fn override_for(ovr: Seq<(Seq<char>, Seq<char>)>, name: Seq<char>) -> Option<
    Seq<char>,
>
    decreases ovr.len(),
{
    if ovr.len() == 0 {
        None
    } else if ovr[0].0 == name {
        Some(ovr[0].1)
    } else {
        override_for(ovr.drop_first(), name)
    }
}

pub open spec fn overrides_view(v: Seq<(String, String)>) -> Seq<(Seq<char>, Seq<char>)> {
    v.map_values(|p: (String, String)| (p.0@, p.1@))
}

/// The country code of a node name: the override for the name, upper-cased;
/// else a known code from a flag emoji, a bracketed code or a name prefix, in
/// that order; else a Chinese region keyword; else an English keyword in the
/// lower-cased name; else `XX`.
pub open spec fn country_of(name: Seq<char>, ovr: Seq<(Seq<char>, Seq<char>)>) -> Seq<char> {
    match override_for(ovr, name) {
        Some(v) => str_to_uppercase(v),
        None => {
            let f = flag_code(name);
            let b = bracket_code(name);
            let p = name_prefix_code(name);
            if f is Some && is_known_code(f->0) {
                pair_seq(f->0)
            } else if b is Some && is_known_code(b->0) {
                pair_seq(b->0)
            } else if p is Some && is_known_code(p->0) {
                pair_seq(p->0)
            } else {
                match keyword_code(name, cn_keywords()) {
                    Some(c) => pair_seq(c),
                    None => match keyword_code(str_to_lowercase(name), en_keywords()) {
                        Some(c) => pair_seq(c),
                        None => unknown_code(),
                    },
                }
            }
        },
    }
}

/// The Regional Indicator Symbol for an ASCII capital.
pub open spec fn regional_of(c: char) -> char {
    (0x1F1E6 + ((c as u32) - 65)) as char
}

/// The black flag emoji used for malformed codes.
pub open spec fn black_flag() -> Seq<char> {
    seq!['\u{1F3F4}']
}

/// The flag emoji of a two-capital code; the black flag for anything else.
pub open spec fn flag_of(s: Seq<char>) -> Seq<char> {
    if s.len() == 2 && is_ascii_upper(s[0]) && is_ascii_upper(s[1]) {
        seq![regional_of(s[0]), regional_of(s[1])]
    } else {
        black_flag()
    }
}

/// The first display name listed for code `c`.
pub open spec fn display_lookup(t: Seq<((char, char), Seq<char>)>, c: (char, char)) -> Option<
    Seq<char>,
>
    decreases t.len(),
{
    if t.len() == 0 {
        None
    } else if t[0].0 == c {
        Some(t[0].1)
    } else {
        display_lookup(t.drop_first(), c)
    }
}

/// The display name of a code; `Unknown` for codes without one.
pub open spec fn display_of(s: Seq<char>) -> Seq<char> {
    if s.len() == 2 && display_lookup(display_names(), (s[0], s[1])) is Some {
        display_lookup(display_names(), (s[0], s[1]))->0
    } else {
        "Unknown"@
    }
}

// ---------------------------------------------------------------------------
// Parsing
// ---------------------------------------------------------------------------

/// Whether `(a, b)` is one of the known country codes.
pub fn is_known_pair(a: char, b: char) -> (r: bool)
    ensures
        r == is_known_code((a, b)),
{
    let table = known_code_table();
    let mut i: usize = 0;
    while i < table.len()
        invariant
            table@ == known_codes(),
            i <= table.len(),
            forall|j: int| 0 <= j < i ==> table@[j] != (a, b),
        decreases table.len() - i,
    {
        let (x, y) = table[i];
        if x == a && y == b {
            assert(table@[i as int] == (a, b));
            return true;
        }
        i = i + 1;
    }
    false
}

/// Whether `code` is exactly one of the known two-letter country codes.
pub fn is_known(code: &str) -> (r: bool)
    ensures
        r == (code@.len() == 2 && is_known_code((code@[0], code@[1]))),
{
    let v = chars_of(code);
    if v.len() != 2 {
        return false;
    }
    is_known_pair(v[0], v[1])
}

fn regional_to_letter(c: char) -> (r: char)
    requires
        is_regional(c),
    ensures
        r == regional_letter(c),
{
    let d: u8 = ((c as u32) - 0x1F1E6) as u8;
    (d + 65) as char
}

/// The letters of the first flag emoji (two Regional Indicator Symbols) in `name`.
pub fn decode_flag_emoji(name: &str) -> (r: Option<(char, char)>)
    ensures
        r == flag_code(name@),
{
    let v = chars_of(name);
    let ghost s = name@;
    if v.len() < 2 {
        assert(!exists|i: int| first_flag(s, i));
        return None;
    }
    let mut i: usize = 0;
    while i + 1 < v.len()
        invariant
            v@ == s,
            s == name@,
            i + 1 <= v.len(),
            forall|j: int| 0 <= j < i ==> !#[trigger] flag_at(s, j),
        decreases v.len() - i,
    {
        let a = v[i] as u32;
        let b = v[i + 1] as u32;
        if 0x1F1E6 <= a && a <= 0x1F1FF && 0x1F1E6 <= b && b <= 0x1F1FF {
            assert(first_flag(s, i as int));
            proof {
                let k = choose|k: int| first_flag(s, k);
                assert(first_flag(s, k));
                if k < i {
                    assert(!flag_at(s, k));
                }
                if i < k {
                    assert(!flag_at(s, i as int));
                }
                assert(k == i);
            }
            return Some((regional_to_letter(v[i]), regional_to_letter(v[i + 1])));
        }
        i = i + 1;
    }
    assert forall|k: int| !first_flag(s, k) by {
        if first_flag(s, k) {
            assert(flag_at(s, k));
        }
    }
    None
}

/// `skip_ws` computed.
fn skip_ws_from(v: &Vec<char>, from: usize) -> (r: usize)
    requires
        from <= v.len(),
    ensures
        r as int == skip_ws(v@, from as int),
        from <= r <= v.len(),
{
    let mut j = from;
    while j < v.len() && is_whitespace(v[j])
        invariant
            from <= j <= v.len(),
            skip_ws(v@, from as int) == skip_ws(v@, j as int),
        decreases v.len() - j,
    {
        j = j + 1;
    }
    j
}

fn is_opener_char(c: char) -> (b: bool)
    ensures
        b == is_opener(c),
{
    c == '[' || c == '(' || c == '\u{ff3b}' || c == '\u{3010}' || c == '\u{300c}'
}

fn is_closer_char(c: char) -> (b: bool)
    ensures
        b == is_closer(c),
{
    c == ']' || c == ')' || c == '\u{ff3d}' || c == '\u{3011}' || c == '\u{300d}'
}

/// The upper-cased code inside the first bracket such as `[JP]`, `( hk )` or `【KR】`.
pub fn bracketed_code(name: &str) -> (r: Option<(char, char)>)
    ensures
        r == bracket_code(name@),
{
    let v = chars_of(name);
    let ghost s = name@;
    let mut i: usize = 0;
    while i < v.len()
        invariant
            v@ == s,
            s == name@,
            i <= v.len(),
            forall|j: int| 0 <= j < i ==> !#[trigger] bracket_at(s, j),
        decreases v.len() - i,
    {
        if is_opener_char(v[i]) {
            let j = skip_ws_from(&v, i + 1);
            if j < v.len() && j + 1 < v.len() && is_alpha(v[j]) && is_alpha(v[j + 1]) {
                let a = to_ascii_upper(v[j]);
                let b = to_ascii_upper(v[j + 1]);
                let k = skip_ws_from(&v, j + 2);
                if k < v.len() && is_closer_char(v[k]) {
                    assert(bracket_at(s, i as int));
                    assert(first_bracket(s, i as int));
                    proof {
                        let m = choose|m: int| first_bracket(s, m);
                        assert(first_bracket(s, m));
                        if m < i {
                            assert(!bracket_at(s, m));
                        }
                        if i < m {
                            assert(!bracket_at(s, i as int));
                        }
                        assert(m == i);
                    }
                    return Some((a, b));
                }
            }
        }
        assert(!bracket_at(s, i as int));
        i = i + 1;
    }
    assert forall|k: int| !first_bracket(s, k) by {
        if first_bracket(s, k) {
            assert(bracket_at(s, k));
        }
    }
    None
}

/// The upper-cased two-letter prefix of names such as `US01`, `HK-IEPL-01` or `JP_Tokyo`.
pub fn prefix_code(name: &str) -> (r: Option<(char, char)>)
    ensures
        r == name_prefix_code(name@),
{
    let v = chars_of(name);
    let i = skip_leading_ws(&v, 0);
    let ghost t = v@.subrange(i as int, v.len() as int);
    assert(v@.subrange(0, v.len() as int) =~= v@);
    assert(t == trim_start(name@));
    if v.len() - i < 3 {
        return None;
    }
    let c0 = v[i];
    let c1 = v[i + 1];
    let c2 = v[i + 2];
    assert(t[0] == c0 && t[1] == c1 && t[2] == c2);
    if !is_alpha(c0) || !is_alpha(c1) {
        return None;
    }
    let ok = is_digit(c2) || ((c2 == '-' || c2 == '_' || c2 == ' ' || c2 == '\t') && v.len() - i
        > 3 && is_alnum(v[i + 3]));
    if !ok {
        return None;
    }
    Some((to_ascii_upper(c0), to_ascii_upper(c1)))
}

/// At most one keyword index is best.
proof fn lemma_best_unique(
    name: Seq<char>,
    kws: Seq<(Seq<char>, (char, char))>,
    n: int,
    b1: int,
    b2: int,
)
    requires
        best_in(name, kws, n, b1),
        best_in(name, kws, n, b2),
    ensures
        b1 == b2,
{
    assert(has_infix(name, kws[b1].0));
    assert(has_infix(name, kws[b2].0));
}

/// The code of the longest keyword of `table` found in `name`, the earliest
/// among equally long ones.
fn best_keyword(name: &Vec<char>, table: &Vec<(&'static str, (char, char))>) -> (r: Option<
    (char, char),
>)
    ensures
        r == keyword_code(name@, keyword_view(table@)),
{
    let ghost kws = keyword_view(table@);
    let mut best: Option<(usize, (char, char))> = None;
    let ghost mut bi: int = 0;
    let mut i: usize = 0;
    while i < table.len()
        invariant
            kws == keyword_view(table@),
            kws.len() == table.len(),
            i <= table.len(),
            best is None ==> forall|j: int| 0 <= j < i ==> !#[trigger] has_infix(name@, kws[j].0),
            best matches Some(p) ==> best_in(name@, kws, i as int, bi) && p.0 == kws[bi].0.len()
                && p.1 == kws[bi].1,
        decreases table.len() - i,
    {
        let (kw, code) = table[i];
        let kv = chars_of(kw);
        assert(kv@ == kws[i as int].0);
        if contains_chars(name, &kv) {
            let len = kv.len();
            let better = match best {
                None => true,
                Some((l, _)) => len > l,
            };
            if better {
                best = Some((len, code));
                proof {
                    bi = i as int;
                }
            }
        }
        i = i + 1;
    }
    match best {
        None => {
            assert forall|b: int| !best_in(name@, kws, kws.len() as int, b) by {
                if best_in(name@, kws, kws.len() as int, b) {
                    assert(has_infix(name@, kws[b].0));
                }
            }
            None
        },
        Some((_, code)) => {
            proof {
                let c = choose|b: int| best_in(name@, kws, kws.len() as int, b);
                lemma_best_unique(name@, kws, kws.len() as int, c, bi);
            }
            Some(code)
        },
    }
}

/// The code of the longest Chinese region keyword in `name`.
pub fn chinese_keyword(name: &str) -> (r: Option<(char, char)>)
    ensures
        r == keyword_code(name@, cn_keywords()),
{
    let v = chars_of(name);
    let t = cn_keyword_table();
    best_keyword(&v, &t)
}

/// The code of the longest English keyword in an already lower-cased name.
pub fn english_keyword_in(lowered: &str) -> (r: Option<(char, char)>)
    ensures
        r == keyword_code(lowered@, en_keywords()),
{
    let v = chars_of(lowered);
    let t = en_keyword_table();
    best_keyword(&v, &t)
}

/// The code of the longest English keyword in `name`, ignoring case.
pub fn english_keyword(name: &str) -> (r: Option<(char, char)>)
    ensures
        r == keyword_code(str_to_lowercase(name@), en_keywords()),
        is_ascii_seq(name@) ==> r == keyword_code(ascii_lower_seq(name@), en_keywords()),
{
    let lower = to_lowercase(name);
    english_keyword_in(lower.as_str())
}

/// The value of the first override keyed by `name`.
fn find_override<'a>(overrides: &'a Vec<(String, String)>, name: &str) -> (r: Option<&'a String>)
    ensures
        r matches Some(v) ==> override_for(overrides_view(overrides@), name@) == Some(v@),
        r is None ==> override_for(overrides_view(overrides@), name@) is None,
        keys_distinct(overrides_view(overrides@)) ==> forall|j: int|
            0 <= j < overrides.len() && #[trigger] overrides@[j].0@ == name@ ==> (r matches Some(v)
                && v@ == overrides@[j].1@),
{
    let ghost ov = overrides_view(overrides@);
    let key = String::from_str(name);
    let mut i: usize = 0;
    assert(ov.skip(0) =~= ov);
    while i < overrides.len()
        invariant
            ov == overrides_view(overrides@),
            ov.len() == overrides.len(),
            key@ == name@,
            i <= overrides.len(),
            override_for(ov, name@) == override_for(ov.skip(i as int), name@),
            forall|j: int| 0 <= j < i ==> #[trigger] overrides@[j].0@ != name@,
        decreases overrides.len() - i,
    {
        assert(ov.skip(i as int).drop_first() =~= ov.skip(i + 1));
        if overrides[i].0 == key {
            proof {
                if keys_distinct(ov) {
                    assert forall|j: int|
                        0 <= j < overrides.len() && #[trigger] overrides@[j].0@ == name@ implies j
                        == i by {
                        if j > i {
                            assert(ov[i as int].0 == ov[j].0);
                        }
                    }
                }
            }
            return Some(&overrides[i].1);
        }
        i = i + 1;
    }
    None
}

/// Parse a country code from a node name.
///
/// First hit wins: an override for the exact name (upper-cased); a known code
/// from a flag emoji, a bracketed code or a two-letter prefix; a Chinese
/// region keyword (longest wins); an English keyword, ignoring case (longest
/// wins); else `XX`.
pub fn parse_country(name: &str, overrides: &Vec<(String, String)>) -> (r: String)
    ensures
        r@ == country_of(name@, overrides_view(overrides@)),
        override_for(overrides_view(overrides@), name@) matches Some(v) ==> (is_ascii_seq(v) ==> r@
            == ascii_upper_seq(v)),
{
    if let Some(c) = find_override(overrides, name) {
        return to_uppercase(c.as_str());
    }
    if let Some((a, b)) = decode_flag_emoji(name) {
        if is_known_pair(a, b) {
            return string_of_pair(a, b);
        }
    }
    if let Some((a, b)) = bracketed_code(name) {
        if is_known_pair(a, b) {
            return string_of_pair(a, b);
        }
    }
    if let Some((a, b)) = prefix_code(name) {
        if is_known_pair(a, b) {
            return string_of_pair(a, b);
        }
    }
    if let Some((a, b)) = chinese_keyword(name) {
        return string_of_pair(a, b);
    }
    if let Some((a, b)) = english_keyword(name) {
        return string_of_pair(a, b);
    }
    string_of_pair('X', 'X')
}

// ---------------------------------------------------------------------------
// Flags and display names
// ---------------------------------------------------------------------------

/// The flag emoji for a two-capital code, or the black flag for anything else.
pub fn iso2_to_flag(iso2: &str) -> (r: String)
    ensures
        r@ == flag_of(iso2@),
{
    let v = chars_of(iso2);
    if v.len() != 2 || !is_upper(v[0]) || !is_upper(v[1]) {
        let mut out = String::new();
        push_char(&mut out, '\u{1F3F4}');
        assert(out@ =~= black_flag());
        return out;
    }
    let mut out = String::new();
    let mut i: usize = 0;
    while i < 2
        invariant
            v@ == iso2@,
            v.len() == 2,
            is_ascii_upper(v@[0]) && is_ascii_upper(v@[1]),
            i <= 2,
            out@ == seq![regional_of(v@[0]), regional_of(v@[1])].take(i as int),
        decreases 2 - i,
    {
        let cp: u32 = 0x1F1E6u32 + ((v[i] as u32) - 65);
        if let Some(c) = char_from_u32(cp) {
            push_char(&mut out, c);
        }
        assert(out@ =~= seq![regional_of(v@[0]), regional_of(v@[1])].take(i + 1));
        i = i + 1;
    }
    out
}

/// The English display name of a country code; `Unknown` for anything else.
pub fn iso2_to_display(iso2: &str) -> (r: &'static str)
    ensures
        r@ == display_of(iso2@),
{
    let v = chars_of(iso2);
    if v.len() != 2 {
        return "Unknown";
    }
    let table = display_table();
    let ghost t = display_view(table@);
    let mut i: usize = 0;
    assert(t.skip(0) =~= t);
    while i < table.len()
        invariant
            t == display_view(table@),
            t == display_names(),
            t.len() == table.len(),
            v@ == iso2@,
            v.len() == 2,
            i <= table.len(),
            display_lookup(t, (v@[0], v@[1])) == display_lookup(t.skip(i as int), (v@[0], v@[1])),
        decreases table.len() - i,
    {
        assert(t.skip(i as int).drop_first() =~= t.skip(i + 1));
        let (code, label) = table[i];
        if code.0 == v[0] && code.1 == v[1] {
            return label;
        }
        i = i + 1;
    }
    assert(t.skip(table.len() as int).len() == 0);
    "Unknown"
}


// ---------------------------------------------------------------------------
// Laws
// ---------------------------------------------------------------------------

/// Some keyword of the first `n` is best as soon as one of them occurs in the name.
proof fn lemma_best_exists(name: Seq<char>, kws: Seq<(Seq<char>, (char, char))>, n: int, i: int)
    requires
        0 <= i < n <= kws.len(),
        has_infix(name, kws[i].0),
    ensures
        exists|b: int| best_in(name, kws, n, b) && kws[b].0.len() >= kws[i].0.len(),
    decreases n,
{
    let last = n - 1;
    if exists|j: int| 0 <= j < last && has_infix(name, kws[j].0) {
        let j = choose|j: int| 0 <= j < last && has_infix(name, kws[j].0);
        lemma_best_exists(name, kws, last, j);
        let b = choose|b: int| best_in(name, kws, last, b) && kws[b].0.len() >= kws[j].0.len();
        if has_infix(name, kws[last].0) && kws[last].0.len() > kws[b].0.len() {
            assert(best_in(name, kws, n, last));
            if i < last {
                lemma_best_exists(name, kws, last, i);
                let c = choose|c: int| best_in(name, kws, last, c) && kws[c].0.len() >= kws[i].0.len();
                lemma_best_unique(name, kws, last, b, c);
            }
        } else {
            assert(best_in(name, kws, n, b));
            if i < last {
                lemma_best_exists(name, kws, last, i);
                let c = choose|c: int| best_in(name, kws, last, c) && kws[c].0.len() >= kws[i].0.len();
                lemma_best_unique(name, kws, last, b, c);
            }
        }
    } else {
        assert(i == last);
        assert(best_in(name, kws, n, last));
    }
}

/// Longest match wins: whenever a keyword occurs in the name, some code is
/// found, and the keyword it comes from is at least as long.
pub proof fn law_longest_keyword_wins(name: Seq<char>, kws: Seq<(Seq<char>, (char, char))>, i: int)
    requires
        0 <= i < kws.len(),
        has_infix(name, kws[i].0),
    ensures
        exists|b: int|
            best_in(name, kws, kws.len() as int, b) && kws[b].0.len() >= kws[i].0.len()
                && keyword_code(name, kws) == Some(kws[b].1),
{
    lemma_best_exists(name, kws, kws.len() as int, i);
    let b = choose|b: int|
        best_in(name, kws, kws.len() as int, b) && kws[b].0.len() >= kws[i].0.len();
    let c = choose|c: int| best_in(name, kws, kws.len() as int, c);
    lemma_best_unique(name, kws, kws.len() as int, b, c);
}

/// An override for the exact name wins over everything, upper-cased.
pub proof fn law_override_wins(name: Seq<char>, ovr: Seq<(Seq<char>, Seq<char>)>, v: Seq<char>)
    requires
        override_for(ovr, name) == Some(v),
    ensures
        country_of(name, ovr) == str_to_uppercase(v),
{
}

/// Without an override the code is always two characters.
pub proof fn law_code_has_two_chars(name: Seq<char>, ovr: Seq<(Seq<char>, Seq<char>)>)
    requires
        override_for(ovr, name) is None,
    ensures
        country_of(name, ovr).len() == 2,
{
}

/// A known flag emoji wins over brackets, prefixes and keywords.
pub proof fn law_flag_first(name: Seq<char>, ovr: Seq<(Seq<char>, Seq<char>)>, c: (char, char))
    requires
        override_for(ovr, name) is None,
        flag_code(name) == Some(c),
        is_known_code(c),
    ensures
        country_of(name, ovr) == seq![c.0, c.1],
{
}

/// The flag of a two-capital code reads back as that code.
pub proof fn law_flag_round_trip(a: char, b: char)
    requires
        is_ascii_upper(a),
        is_ascii_upper(b),
    ensures
        flag_code(flag_of(seq![a, b])) == Some((a, b)),
{
    let f = flag_of(seq![a, b]);
    assert(seq![a, b][0] == a && seq![a, b][1] == b);
    assert(f == seq![regional_of(a), regional_of(b)]);
    assert((regional_of(a) as u32) == 0x1F1E6 + ((a as u32) - 65));
    assert((regional_of(b) as u32) == 0x1F1E6 + ((b as u32) - 65));
    assert(regional_letter(regional_of(a)) == a);
    assert(regional_letter(regional_of(b)) == b);
    assert(first_flag(f, 0));
    let i = choose|i: int| first_flag(f, i);
    assert(i == 0) by {
        if i > 0 {
            assert(!flag_at(f, 0));
        }
    }
}

/// The flag of a known code parses back to that code, when no override
/// names the flag.
pub proof fn law_known_flag_parses_back(a: char, b: char, ovr: Seq<(Seq<char>, Seq<char>)>)
    requires
        is_ascii_upper(a),
        is_ascii_upper(b),
        is_known_code((a, b)),
        override_for(ovr, flag_of(seq![a, b])) is None,
    ensures
        country_of(flag_of(seq![a, b]), ovr) == seq![a, b],
{
    law_flag_round_trip(a, b);
}

/// A name that starts (after leading white space) with two ASCII letters of
/// a known code, then a digit, or one of `-`, `_`, space or tab followed by an
/// ASCII letter or digit, gets that code in upper case, when no override,
/// known flag emoji or known bracketed code decides first.
pub proof fn law_name_prefix_gives_code(name: Seq<char>, ovr: Seq<(Seq<char>, Seq<char>)>)
    requires
        override_for(ovr, name) is None,
        !(flag_code(name) is Some && is_known_code(flag_code(name)->0)),
        !(bracket_code(name) is Some && is_known_code(bracket_code(name)->0)),
        trim_start(name).len() >= 3,
        is_ascii_alpha(trim_start(name)[0]),
        is_ascii_alpha(trim_start(name)[1]),
        is_ascii_digit(trim_start(name)[2]) || ((trim_start(name)[2] == '-' || trim_start(name)[2]
            == '_' || trim_start(name)[2] == ' ' || trim_start(name)[2] == '\t') && trim_start(
            name,
        ).len() > 3 && is_ascii_alnum(trim_start(name)[3])),
        is_known_code((ascii_upper(trim_start(name)[0]), ascii_upper(trim_start(name)[1]))),
    ensures
        country_of(name, ovr) == seq![ascii_upper(trim_start(name)[0]), ascii_upper(trim_start(name)[1])],
{
}

/// With at most one override per node name, the override found for a name is
/// the one listed under it, wherever it stands in the list.
pub proof fn law_override_by_key(ovr: Seq<(Seq<char>, Seq<char>)>, i: int)
    requires
        keys_distinct(ovr),
        0 <= i < ovr.len(),
    ensures
        override_for(ovr, ovr[i].0) == Some(ovr[i].1),
    decreases ovr.len(),
{
    if i > 0 {
        let t = ovr.drop_first();
        assert(ovr[0].0 != ovr[i].0);
        assert(t[i - 1] == ovr[i]);
        assert forall|a: int, b: int| #![trigger t[a], t[b]] 0 <= a < b < t.len() implies t[a].0
            != t[b].0 by {
            assert(t[a] == ovr[a + 1] && t[b] == ovr[b + 1]);
        }
        law_override_by_key(t, i - 1);
    }
}

/// A name has an override exactly when some entry is keyed by it.
pub proof fn law_override_absent(ovr: Seq<(Seq<char>, Seq<char>)>, name: Seq<char>)
    ensures
        (override_for(ovr, name) is None) == (forall|i: int| 0 <= i < ovr.len() ==> #[trigger] ovr[i].0
            != name),
    decreases ovr.len(),
{
    if ovr.len() > 0 {
        let t = ovr.drop_first();
        law_override_absent(t, name);
        assert forall|i: int| 0 <= i < t.len() implies #[trigger] t[i] == ovr[i + 1] by {}
        if ovr[0].0 != name && !(forall|i: int| 0 <= i < ovr.len() ==> #[trigger] ovr[i].0 != name) {
            let i = choose|i: int| 0 <= i < ovr.len() && !(#[trigger] ovr[i].0 != name);
            assert(t[i - 1] == ovr[i]);
        }
    }
}

/// A display-name table entry per code found: the lookup is `Some` exactly
/// when some entry has the code, and then it gives the name of one of them.
proof fn lemma_display_lookup(t: Seq<((char, char), Seq<char>)>, c: (char, char))
    ensures
        (display_lookup(t, c) is Some) == (exists|i: int| 0 <= i < t.len() && #[trigger] t[i].0 == c),
        display_lookup(t, c) is Some ==> exists|j: int|
            0 <= j < t.len() && #[trigger] t[j].0 == c && t[j].1 == display_lookup(t, c)->0,
    decreases t.len(),
{
    if t.len() > 0 {
        let r = t.drop_first();
        lemma_display_lookup(r, c);
        if t[0].0 != c {
            if exists|i: int| 0 <= i < t.len() && #[trigger] t[i].0 == c {
                let i = choose|i: int| 0 <= i < t.len() && #[trigger] t[i].0 == c;
                assert(r[i - 1].0 == c);
            }
            if display_lookup(t, c) is Some {
                let j = choose|j: int|
                    0 <= j < r.len() && #[trigger] r[j].0 == c && r[j].1 == display_lookup(r, c)->0;
                assert(t[j + 1] == r[j]);
            }
        }
    }
}

/// The code's display name is a real one (not `Unknown`) exactly when the
/// code is a known one.
proof fn lemma_display_known(c: (char, char))
    ensures
        (display_lookup(display_names(), c) is Some && display_lookup(display_names(), c)->0
            != "Unknown"@) == is_known_code(c),
{
    let t = display_names();
    let k = known_codes();
    reveal_strlit("Hong Kong");
    reveal_strlit("Japan");
    reveal_strlit("Singapore");
    reveal_strlit("Taiwan");
    reveal_strlit("United States");
    reveal_strlit("United Kingdom");
    reveal_strlit("Germany");
    reveal_strlit("South Korea");
    reveal_strlit("France");
    reveal_strlit("Malaysia");
    reveal_strlit("Russia");
    reveal_strlit("Canada");
    reveal_strlit("Australia");
    reveal_strlit("Netherlands");
    reveal_strlit("Turkey");
    reveal_strlit("India");
    reveal_strlit("Brazil");
    reveal_strlit("Argentina");
    reveal_strlit("Thailand");
    reveal_strlit("Philippines");
    reveal_strlit("Vietnam");
    reveal_strlit("Indonesia");
    reveal_strlit("UAE");
    reveal_strlit("Israel");
    reveal_strlit("South Africa");
    reveal_strlit("Italy");
    reveal_strlit("Spain");
    reveal_strlit("Switzerland");
    reveal_strlit("Sweden");
    reveal_strlit("Norway");
    reveal_strlit("Finland");
    reveal_strlit("Denmark");
    reveal_strlit("Poland");
    reveal_strlit("Ukraine");
    reveal_strlit("Mexico");
    reveal_strlit("Unknown");
    assert(t.len() == 36 && k.len() == 35);
    assert(t[35] == (('X', 'X'), "Unknown"@));
    assert forall|i: int| 0 <= i < 35 implies #[trigger] t[i].0 == k[i] by {}
    assert forall|i: int| 0 <= i < 35 implies #[trigger] k[i] != ('X', 'X') by {}
    assert forall|i: int| 0 <= i < 35 implies #[trigger] t[i].1 != "Unknown"@ by {
        if i == 0 {
            assert(t[0].1 == "Hong Kong"@);
            assert(t[0].1 != "Unknown"@);
        } else if i == 1 {
            assert(t[1].1 == "Japan"@);
            assert(t[1].1 != "Unknown"@);
        } else if i == 2 {
            assert(t[2].1 == "Singapore"@);
            assert(t[2].1 != "Unknown"@);
        } else if i == 3 {
            assert(t[3].1 == "Taiwan"@);
            assert(t[3].1 != "Unknown"@);
        } else if i == 4 {
            assert(t[4].1 == "United States"@);
            assert(t[4].1 != "Unknown"@);
        } else if i == 5 {
            assert(t[5].1 == "United Kingdom"@);
            assert(t[5].1 != "Unknown"@);
        } else if i == 6 {
            assert(t[6].1 == "Germany"@);
            assert("Germany"@[0] != "Unknown"@[0]);
            assert(t[6].1 != "Unknown"@);
        } else if i == 7 {
            assert(t[7].1 == "South Korea"@);
            assert(t[7].1 != "Unknown"@);
        } else if i == 8 {
            assert(t[8].1 == "France"@);
            assert(t[8].1 != "Unknown"@);
        } else if i == 9 {
            assert(t[9].1 == "Malaysia"@);
            assert(t[9].1 != "Unknown"@);
        } else if i == 10 {
            assert(t[10].1 == "Russia"@);
            assert(t[10].1 != "Unknown"@);
        } else if i == 11 {
            assert(t[11].1 == "Canada"@);
            assert(t[11].1 != "Unknown"@);
        } else if i == 12 {
            assert(t[12].1 == "Australia"@);
            assert(t[12].1 != "Unknown"@);
        } else if i == 13 {
            assert(t[13].1 == "Netherlands"@);
            assert(t[13].1 != "Unknown"@);
        } else if i == 14 {
            assert(t[14].1 == "Turkey"@);
            assert(t[14].1 != "Unknown"@);
        } else if i == 15 {
            assert(t[15].1 == "India"@);
            assert(t[15].1 != "Unknown"@);
        } else if i == 16 {
            assert(t[16].1 == "Brazil"@);
            assert(t[16].1 != "Unknown"@);
        } else if i == 17 {
            assert(t[17].1 == "Argentina"@);
            assert(t[17].1 != "Unknown"@);
        } else if i == 18 {
            assert(t[18].1 == "Thailand"@);
            assert(t[18].1 != "Unknown"@);
        } else if i == 19 {
            assert(t[19].1 == "Philippines"@);
            assert(t[19].1 != "Unknown"@);
        } else if i == 20 {
            assert(t[20].1 == "Vietnam"@);
            assert("Vietnam"@[0] != "Unknown"@[0]);
            assert(t[20].1 != "Unknown"@);
        } else if i == 21 {
            assert(t[21].1 == "Indonesia"@);
            assert(t[21].1 != "Unknown"@);
        } else if i == 22 {
            assert(t[22].1 == "UAE"@);
            assert(t[22].1 != "Unknown"@);
        } else if i == 23 {
            assert(t[23].1 == "Israel"@);
            assert(t[23].1 != "Unknown"@);
        } else if i == 24 {
            assert(t[24].1 == "South Africa"@);
            assert(t[24].1 != "Unknown"@);
        } else if i == 25 {
            assert(t[25].1 == "Italy"@);
            assert(t[25].1 != "Unknown"@);
        } else if i == 26 {
            assert(t[26].1 == "Spain"@);
            assert(t[26].1 != "Unknown"@);
        } else if i == 27 {
            assert(t[27].1 == "Switzerland"@);
            assert(t[27].1 != "Unknown"@);
        } else if i == 28 {
            assert(t[28].1 == "Sweden"@);
            assert(t[28].1 != "Unknown"@);
        } else if i == 29 {
            assert(t[29].1 == "Norway"@);
            assert(t[29].1 != "Unknown"@);
        } else if i == 30 {
            assert(t[30].1 == "Finland"@);
            assert("Finland"@[0] != "Unknown"@[0]);
            assert(t[30].1 != "Unknown"@);
        } else if i == 31 {
            assert(t[31].1 == "Denmark"@);
            assert("Denmark"@[0] != "Unknown"@[0]);
            assert(t[31].1 != "Unknown"@);
        } else if i == 32 {
            assert(t[32].1 == "Poland"@);
            assert(t[32].1 != "Unknown"@);
        } else if i == 33 {
            assert(t[33].1 == "Ukraine"@);
            assert("Ukraine"@[1] != "Unknown"@[1]);
            assert(t[33].1 != "Unknown"@);
        } else {
            assert(t[34].1 == "Mexico"@);
            assert(t[34].1 != "Unknown"@);
        }
    }
    lemma_display_lookup(t, c);
    if is_known_code(c) {
        let i = choose|i: int| 0 <= i < k.len() && k[i] == c;
        assert(t[i].0 == c);
        let j = choose|j: int| 0 <= j < t.len() && #[trigger] t[j].0 == c && t[j].1 == display_lookup(t, c)->0;
        assert(j != 35);
    }
    if display_lookup(t, c) is Some && display_lookup(t, c)->0 != "Unknown"@ {
        let j = choose|j: int| 0 <= j < t.len() && #[trigger] t[j].0 == c && t[j].1 == display_lookup(t, c)->0;
        assert(j != 35);
        assert(k[j] == c);
    }
}

/// Exactly the known codes have a display name: every other text, including a
/// known code in lower case, reads `Unknown`.
pub proof fn law_display_name_iff_known(s: Seq<char>)
    ensures
        (display_of(s) != "Unknown"@) == (s.len() == 2 && is_known_code((s[0], s[1]))),
{
    if s.len() == 2 {
        lemma_display_known((s[0], s[1]));
    }
}

// ---------------------------------------------------------------------------
// Tables
// ---------------------------------------------------------------------------

/// The country codes the parser accepts from flags, brackets and prefixes.
pub open spec fn known_codes() -> Seq<(char, char)> {
    seq![
        ('H', 'K'),
        ('J', 'P'),
        ('S', 'G'),
        ('T', 'W'),
        ('U', 'S'),
        ('G', 'B'),
        ('D', 'E'),
        ('K', 'R'),
        ('F', 'R'),
        ('M', 'Y'),
        ('R', 'U'),
        ('C', 'A'),
        ('A', 'U'),
        ('N', 'L'),
        ('T', 'R'),
        ('I', 'N'),
        ('B', 'R'),
        ('A', 'R'),
        ('T', 'H'),
        ('P', 'H'),
        ('V', 'N'),
        ('I', 'D'),
        ('A', 'E'),
        ('I', 'L'),
        ('Z', 'A'),
        ('I', 'T'),
        ('E', 'S'),
        ('C', 'H'),
        ('S', 'E'),
        ('N', 'O'),
        ('F', 'I'),
        ('D', 'K'),
        ('P', 'L'),
        ('U', 'A'),
        ('M', 'X'),
    ]
}

fn known_code_table() -> (v: Vec<(char, char)>)
    ensures
        v@ == known_codes(),
{
    let mut v: Vec<(char, char)> = Vec::new();
    v.push(('H', 'K'));
    v.push(('J', 'P'));
    v.push(('S', 'G'));
    v.push(('T', 'W'));
    v.push(('U', 'S'));
    v.push(('G', 'B'));
    v.push(('D', 'E'));
    v.push(('K', 'R'));
    v.push(('F', 'R'));
    v.push(('M', 'Y'));
    v.push(('R', 'U'));
    v.push(('C', 'A'));
    v.push(('A', 'U'));
    v.push(('N', 'L'));
    v.push(('T', 'R'));
    v.push(('I', 'N'));
    v.push(('B', 'R'));
    v.push(('A', 'R'));
    v.push(('T', 'H'));
    v.push(('P', 'H'));
    v.push(('V', 'N'));
    v.push(('I', 'D'));
    v.push(('A', 'E'));
    v.push(('I', 'L'));
    v.push(('Z', 'A'));
    v.push(('I', 'T'));
    v.push(('E', 'S'));
    v.push(('C', 'H'));
    v.push(('S', 'E'));
    v.push(('N', 'O'));
    v.push(('F', 'I'));
    v.push(('D', 'K'));
    v.push(('P', 'L'));
    v.push(('U', 'A'));
    v.push(('M', 'X'));
    assert(v@ =~= known_codes());
    v
}

/// Chinese region keywords and their codes; the longest one found in a name wins.
pub open spec fn cn_keywords() -> Seq<(Seq<char>, (char, char))> {
    seq![
        ("阿根廷"@, ('A', 'R')),
        ("阿联酋"@, ('A', 'E')),
        ("澳大利亚"@, ('A', 'U')),
        ("俄罗斯"@, ('R', 'U')),
        ("加拿大"@, ('C', 'A')),
        ("菲律宾"@, ('P', 'H')),
        ("马来西亚"@, ('M', 'Y')),
        ("土耳其"@, ('T', 'R')),
        ("乌克兰"@, ('U', 'A')),
        ("以色列"@, ('I', 'L')),
        ("意大利"@, ('I', 'T')),
        ("印度尼西亚"@, ('I', 'D')),
        ("墨西哥"@, ('M', 'X')),
        ("西班牙"@, ('E', 'S')),
        ("瑞典"@, ('S', 'E')),
        ("香港"@, ('H', 'K')),
        ("日本"@, ('J', 'P')),
        ("新加坡"@, ('S', 'G')),
        ("狮城"@, ('S', 'G')),
        ("美国"@, ('U', 'S')),
        ("台湾"@, ('T', 'W')),
        ("韩国"@, ('K', 'R')),
        ("英国"@, ('G', 'B')),
        ("德国"@, ('D', 'E')),
        ("法国"@, ('F', 'R')),
        ("荷兰"@, ('N', 'L')),
        ("印度"@, ('I', 'N')),
        ("巴西"@, ('B', 'R')),
        ("马来"@, ('M', 'Y')),
        ("泰国"@, ('T', 'H')),
        ("越南"@, ('V', 'N')),
        ("印尼"@, ('I', 'D')),
        ("迪拜"@, ('A', 'E')),
        ("南非"@, ('Z', 'A')),
        ("瑞士"@, ('C', 'H')),
        ("挪威"@, ('N', 'O')),
        ("芬兰"@, ('F', 'I')),
        ("丹麦"@, ('D', 'K')),
        ("波兰"@, ('P', 'L')),
        ("港"@, ('H', 'K')),
        ("日"@, ('J', 'P')),
        ("新"@, ('S', 'G')),
        ("美"@, ('U', 'S')),
        ("台"@, ('T', 'W')),
        ("韩"@, ('K', 'R')),
        ("英"@, ('G', 'B')),
        ("德"@, ('D', 'E')),
        ("法"@, ('F', 'R')),
        ("俄"@, ('R', 'U')),
        ("加"@, ('C', 'A')),
        ("澳"@, ('A', 'U')),
        ("荷"@, ('N', 'L')),
        ("土"@, ('T', 'R')),
        ("印"@, ('I', 'N')),
        ("巴"@, ('B', 'R')),
        ("阿"@, ('A', 'R')),
        ("泰"@, ('T', 'H')),
        ("菲"@, ('P', 'H')),
        ("越"@, ('V', 'N')),
        ("以"@, ('I', 'L')),
        ("意"@, ('I', 'T')),
        ("西"@, ('E', 'S')),
        ("瑞"@, ('C', 'H')),
        ("挪"@, ('N', 'O')),
        ("芬"@, ('F', 'I')),
        ("丹"@, ('D', 'K')),
        ("波"@, ('P', 'L')),
        ("乌"@, ('U', 'A')),
        ("墨"@, ('M', 'X')),
    ]
}

fn cn_keyword_table() -> (v: Vec<(&'static str, (char, char))>)
    ensures
        keyword_view(v@) == cn_keywords(),
{
    let mut v: Vec<(&'static str, (char, char))> = Vec::new();
    v.push(("阿根廷", ('A', 'R')));
    v.push(("阿联酋", ('A', 'E')));
    v.push(("澳大利亚", ('A', 'U')));
    v.push(("俄罗斯", ('R', 'U')));
    v.push(("加拿大", ('C', 'A')));
    v.push(("菲律宾", ('P', 'H')));
    v.push(("马来西亚", ('M', 'Y')));
    v.push(("土耳其", ('T', 'R')));
    v.push(("乌克兰", ('U', 'A')));
    v.push(("以色列", ('I', 'L')));
    v.push(("意大利", ('I', 'T')));
    v.push(("印度尼西亚", ('I', 'D')));
    v.push(("墨西哥", ('M', 'X')));
    v.push(("西班牙", ('E', 'S')));
    v.push(("瑞典", ('S', 'E')));
    v.push(("香港", ('H', 'K')));
    v.push(("日本", ('J', 'P')));
    v.push(("新加坡", ('S', 'G')));
    v.push(("狮城", ('S', 'G')));
    v.push(("美国", ('U', 'S')));
    v.push(("台湾", ('T', 'W')));
    v.push(("韩国", ('K', 'R')));
    v.push(("英国", ('G', 'B')));
    v.push(("德国", ('D', 'E')));
    v.push(("法国", ('F', 'R')));
    v.push(("荷兰", ('N', 'L')));
    v.push(("印度", ('I', 'N')));
    v.push(("巴西", ('B', 'R')));
    v.push(("马来", ('M', 'Y')));
    v.push(("泰国", ('T', 'H')));
    v.push(("越南", ('V', 'N')));
    v.push(("印尼", ('I', 'D')));
    v.push(("迪拜", ('A', 'E')));
    v.push(("南非", ('Z', 'A')));
    v.push(("瑞士", ('C', 'H')));
    v.push(("挪威", ('N', 'O')));
    v.push(("芬兰", ('F', 'I')));
    v.push(("丹麦", ('D', 'K')));
    v.push(("波兰", ('P', 'L')));
    v.push(("港", ('H', 'K')));
    v.push(("日", ('J', 'P')));
    v.push(("新", ('S', 'G')));
    v.push(("美", ('U', 'S')));
    v.push(("台", ('T', 'W')));
    v.push(("韩", ('K', 'R')));
    v.push(("英", ('G', 'B')));
    v.push(("德", ('D', 'E')));
    v.push(("法", ('F', 'R')));
    v.push(("俄", ('R', 'U')));
    v.push(("加", ('C', 'A')));
    v.push(("澳", ('A', 'U')));
    v.push(("荷", ('N', 'L')));
    v.push(("土", ('T', 'R')));
    v.push(("印", ('I', 'N')));
    v.push(("巴", ('B', 'R')));
    v.push(("阿", ('A', 'R')));
    v.push(("泰", ('T', 'H')));
    v.push(("菲", ('P', 'H')));
    v.push(("越", ('V', 'N')));
    v.push(("以", ('I', 'L')));
    v.push(("意", ('I', 'T')));
    v.push(("西", ('E', 'S')));
    v.push(("瑞", ('C', 'H')));
    v.push(("挪", ('N', 'O')));
    v.push(("芬", ('F', 'I')));
    v.push(("丹", ('D', 'K')));
    v.push(("波", ('P', 'L')));
    v.push(("乌", ('U', 'A')));
    v.push(("墨", ('M', 'X')));
    assert(keyword_view(v@) =~= cn_keywords());
    v
}

/// English keywords (lower case) and their codes, matched against the lower-cased name.
pub open spec fn en_keywords() -> Seq<(Seq<char>, (char, char))> {
    seq![
        ("hong kong"@, ('H', 'K')),
        ("united kingdom"@, ('G', 'B')),
        ("united states"@, ('U', 'S')),
        ("united arab"@, ('A', 'E')),
        ("los angeles"@, ('U', 'S')),
        ("san jose"@, ('U', 'S')),
        ("new york"@, ('U', 'S')),
        ("netherlands"@, ('N', 'L')),
        ("amsterdam"@, ('N', 'L')),
        ("singapore"@, ('S', 'G')),
        ("frankfurt"@, ('D', 'E')),
        ("stockholm"@, ('S', 'E')),
        ("argentina"@, ('A', 'R')),
        ("indonesia"@, ('I', 'D')),
        ("jakarta"@, ('I', 'D')),
        ("australia"@, ('A', 'U')),
        ("istanbul"@, ('T', 'R')),
        ("malaysia"@, ('M', 'Y')),
        ("philippines"@, ('P', 'H')),
        ("germany"@, ('D', 'E')),
        ("america"@, ('U', 'S')),
        ("chicago"@, ('U', 'S')),
        ("seattle"@, ('U', 'S')),
        ("toronto"@, ('C', 'A')),
        ("thailand"@, ('T', 'H')),
        ("bangkok"@, ('T', 'H')),
        ("vietnam"@, ('V', 'N')),
        ("denmark"@, ('D', 'K')),
        ("finland"@, ('F', 'I')),
        ("ukraine"@, ('U', 'A')),
        ("israel"@, ('I', 'L')),
        ("mexico"@, ('M', 'X')),
        ("japan"@, ('J', 'P')),
        ("tokyo"@, ('J', 'P')),
        ("osaka"@, ('J', 'P')),
        ("taiwan"@, ('T', 'W')),
        ("korea"@, ('K', 'R')),
        ("seoul"@, ('K', 'R')),
        ("london"@, ('G', 'B')),
        ("france"@, ('F', 'R')),
        ("paris"@, ('F', 'R')),
        ("russia"@, ('R', 'U')),
        ("moscow"@, ('R', 'U')),
        ("canada"@, ('C', 'A')),
        ("sydney"@, ('A', 'U')),
        ("turkey"@, ('T', 'R')),
        ("india"@, ('I', 'N')),
        ("mumbai"@, ('I', 'N')),
        ("brazil"@, ('B', 'R')),
        ("dubai"@, ('A', 'E')),
        ("italy"@, ('I', 'T')),
        ("milan"@, ('I', 'T')),
        ("spain"@, ('E', 'S')),
        ("madrid"@, ('E', 'S')),
        ("switzerland"@, ('C', 'H')),
        ("sweden"@, ('S', 'E')),
        ("norway"@, ('N', 'O')),
        ("poland"@, ('P', 'L')),
    ]
}

fn en_keyword_table() -> (v: Vec<(&'static str, (char, char))>)
    ensures
        keyword_view(v@) == en_keywords(),
{
    let mut v: Vec<(&'static str, (char, char))> = Vec::new();
    v.push(("hong kong", ('H', 'K')));
    v.push(("united kingdom", ('G', 'B')));
    v.push(("united states", ('U', 'S')));
    v.push(("united arab", ('A', 'E')));
    v.push(("los angeles", ('U', 'S')));
    v.push(("san jose", ('U', 'S')));
    v.push(("new york", ('U', 'S')));
    v.push(("netherlands", ('N', 'L')));
    v.push(("amsterdam", ('N', 'L')));
    v.push(("singapore", ('S', 'G')));
    v.push(("frankfurt", ('D', 'E')));
    v.push(("stockholm", ('S', 'E')));
    v.push(("argentina", ('A', 'R')));
    v.push(("indonesia", ('I', 'D')));
    v.push(("jakarta", ('I', 'D')));
    v.push(("australia", ('A', 'U')));
    v.push(("istanbul", ('T', 'R')));
    v.push(("malaysia", ('M', 'Y')));
    v.push(("philippines", ('P', 'H')));
    v.push(("germany", ('D', 'E')));
    v.push(("america", ('U', 'S')));
    v.push(("chicago", ('U', 'S')));
    v.push(("seattle", ('U', 'S')));
    v.push(("toronto", ('C', 'A')));
    v.push(("thailand", ('T', 'H')));
    v.push(("bangkok", ('T', 'H')));
    v.push(("vietnam", ('V', 'N')));
    v.push(("denmark", ('D', 'K')));
    v.push(("finland", ('F', 'I')));
    v.push(("ukraine", ('U', 'A')));
    v.push(("israel", ('I', 'L')));
    v.push(("mexico", ('M', 'X')));
    v.push(("japan", ('J', 'P')));
    v.push(("tokyo", ('J', 'P')));
    v.push(("osaka", ('J', 'P')));
    v.push(("taiwan", ('T', 'W')));
    v.push(("korea", ('K', 'R')));
    v.push(("seoul", ('K', 'R')));
    v.push(("london", ('G', 'B')));
    v.push(("france", ('F', 'R')));
    v.push(("paris", ('F', 'R')));
    v.push(("russia", ('R', 'U')));
    v.push(("moscow", ('R', 'U')));
    v.push(("canada", ('C', 'A')));
    v.push(("sydney", ('A', 'U')));
    v.push(("turkey", ('T', 'R')));
    v.push(("india", ('I', 'N')));
    v.push(("mumbai", ('I', 'N')));
    v.push(("brazil", ('B', 'R')));
    v.push(("dubai", ('A', 'E')));
    v.push(("italy", ('I', 'T')));
    v.push(("milan", ('I', 'T')));
    v.push(("spain", ('E', 'S')));
    v.push(("madrid", ('E', 'S')));
    v.push(("switzerland", ('C', 'H')));
    v.push(("sweden", ('S', 'E')));
    v.push(("norway", ('N', 'O')));
    v.push(("poland", ('P', 'L')));
    assert(keyword_view(v@) =~= en_keywords());
    v
}

/// Display names of the known codes.
pub open spec fn display_names() -> Seq<((char, char), Seq<char>)> {
    seq![
        (('H', 'K'), "Hong Kong"@),
        (('J', 'P'), "Japan"@),
        (('S', 'G'), "Singapore"@),
        (('T', 'W'), "Taiwan"@),
        (('U', 'S'), "United States"@),
        (('G', 'B'), "United Kingdom"@),
        (('D', 'E'), "Germany"@),
        (('K', 'R'), "South Korea"@),
        (('F', 'R'), "France"@),
        (('M', 'Y'), "Malaysia"@),
        (('R', 'U'), "Russia"@),
        (('C', 'A'), "Canada"@),
        (('A', 'U'), "Australia"@),
        (('N', 'L'), "Netherlands"@),
        (('T', 'R'), "Turkey"@),
        (('I', 'N'), "India"@),
        (('B', 'R'), "Brazil"@),
        (('A', 'R'), "Argentina"@),
        (('T', 'H'), "Thailand"@),
        (('P', 'H'), "Philippines"@),
        (('V', 'N'), "Vietnam"@),
        (('I', 'D'), "Indonesia"@),
        (('A', 'E'), "UAE"@),
        (('I', 'L'), "Israel"@),
        (('Z', 'A'), "South Africa"@),
        (('I', 'T'), "Italy"@),
        (('E', 'S'), "Spain"@),
        (('C', 'H'), "Switzerland"@),
        (('S', 'E'), "Sweden"@),
        (('N', 'O'), "Norway"@),
        (('F', 'I'), "Finland"@),
        (('D', 'K'), "Denmark"@),
        (('P', 'L'), "Poland"@),
        (('U', 'A'), "Ukraine"@),
        (('M', 'X'), "Mexico"@),
        (('X', 'X'), "Unknown"@),
    ]
}

fn display_table() -> (v: Vec<((char, char), &'static str)>)
    ensures
        display_view(v@) == display_names(),
{
    let mut v: Vec<((char, char), &'static str)> = Vec::new();
    v.push((('H', 'K'), "Hong Kong"));
    v.push((('J', 'P'), "Japan"));
    v.push((('S', 'G'), "Singapore"));
    v.push((('T', 'W'), "Taiwan"));
    v.push((('U', 'S'), "United States"));
    v.push((('G', 'B'), "United Kingdom"));
    v.push((('D', 'E'), "Germany"));
    v.push((('K', 'R'), "South Korea"));
    v.push((('F', 'R'), "France"));
    v.push((('M', 'Y'), "Malaysia"));
    v.push((('R', 'U'), "Russia"));
    v.push((('C', 'A'), "Canada"));
    v.push((('A', 'U'), "Australia"));
    v.push((('N', 'L'), "Netherlands"));
    v.push((('T', 'R'), "Turkey"));
    v.push((('I', 'N'), "India"));
    v.push((('B', 'R'), "Brazil"));
    v.push((('A', 'R'), "Argentina"));
    v.push((('T', 'H'), "Thailand"));
    v.push((('P', 'H'), "Philippines"));
    v.push((('V', 'N'), "Vietnam"));
    v.push((('I', 'D'), "Indonesia"));
    v.push((('A', 'E'), "UAE"));
    v.push((('I', 'L'), "Israel"));
    v.push((('Z', 'A'), "South Africa"));
    v.push((('I', 'T'), "Italy"));
    v.push((('E', 'S'), "Spain"));
    v.push((('C', 'H'), "Switzerland"));
    v.push((('S', 'E'), "Sweden"));
    v.push((('N', 'O'), "Norway"));
    v.push((('F', 'I'), "Finland"));
    v.push((('D', 'K'), "Denmark"));
    v.push((('P', 'L'), "Poland"));
    v.push((('U', 'A'), "Ukraine"));
    v.push((('M', 'X'), "Mexico"));
    v.push((('X', 'X'), "Unknown"));
    assert(display_view(v@) =~= display_names());
    v
}

} // verus!
