//! Character-level text utilities shared by the parsers and formatters.
use vstd::prelude::*;
use vstd::string::*;

verus! {

/// Unicode `White_Space` characters, the set that `char::is_whitespace` accepts.
pub open spec fn is_ws(c: char) -> bool {
    let u = c as u32;
    ||| 0x09 <= u <= 0x0D
    ||| u == 0x20
    ||| u == 0x85
    ||| u == 0xA0
    ||| u == 0x1680
    ||| 0x2000 <= u <= 0x200A
    ||| u == 0x2028
    ||| u == 0x2029
    ||| u == 0x202F
    ||| u == 0x205F
    ||| u == 0x3000
}

pub open spec fn is_ascii_upper(c: char) -> bool {
    'A' <= c <= 'Z'
}

pub open spec fn is_ascii_lower(c: char) -> bool {
    'a' <= c <= 'z'
}

pub open spec fn is_ascii_alpha(c: char) -> bool {
    is_ascii_upper(c) || is_ascii_lower(c)
}

pub open spec fn is_ascii_digit(c: char) -> bool {
    '0' <= c <= '9'
}

pub open spec fn is_ascii_alnum(c: char) -> bool {
    is_ascii_alpha(c) || is_ascii_digit(c)
}

pub open spec fn is_ascii_char(c: char) -> bool {
    (c as u32) < 128
}

pub open spec fn is_ascii_seq(s: Seq<char>) -> bool {
    forall|i: int| 0 <= i < s.len() ==> is_ascii_char(#[trigger] s[i])
}

/// ASCII upper-casing of one character; every other character is kept.
pub open spec fn ascii_upper(c: char) -> char {
    if is_ascii_lower(c) {
        ((c as u32) - 32) as char
    } else {
        c
    }
}

/// ASCII lower-casing of one character; every other character is kept.
pub open spec fn ascii_lower(c: char) -> char {
    if is_ascii_upper(c) {
        ((c as u32) + 32) as char
    } else {
        c
    }
}

pub open spec fn ascii_upper_seq(s: Seq<char>) -> Seq<char> {
    s.map_values(|c: char| ascii_upper(c))
}

pub open spec fn ascii_lower_seq(s: Seq<char>) -> Seq<char> {
    s.map_values(|c: char| ascii_lower(c))
}

pub fn is_whitespace(c: char) -> (b: bool)
    ensures
        b == is_ws(c),
{
    let u = c as u32;
    (0x09 <= u && u <= 0x0D) || u == 0x20 || u == 0x85 || u == 0xA0 || u == 0x1680 || (0x2000
        <= u && u <= 0x200A) || u == 0x2028 || u == 0x2029 || u == 0x202F || u == 0x205F || u
        == 0x3000
}

pub fn is_alpha(c: char) -> (b: bool)
    ensures
        b == is_ascii_alpha(c),
{
    ('A' <= c && c <= 'Z') || ('a' <= c && c <= 'z')
}

pub fn is_digit(c: char) -> (b: bool)
    ensures
        b == is_ascii_digit(c),
{
    '0' <= c && c <= '9'
}

pub fn is_alnum(c: char) -> (b: bool)
    ensures
        b == is_ascii_alnum(c),
{
    is_alpha(c) || is_digit(c)
}

pub fn is_upper(c: char) -> (b: bool)
    ensures
        b == is_ascii_upper(c),
{
    'A' <= c && c <= 'Z'
}

pub fn to_ascii_upper(c: char) -> (r: char)
    ensures
        r == ascii_upper(c),
{
    if 'a' <= c && c <= 'z' {
        let b: u8 = (c as u8) - 32;
        b as char
    } else {
        c
    }
}

/// Appends one character to a string.
///
/// Trusted: calls `String::push`, which the standard library documents as
/// appending the given `char` to the end of the string.
#[verifier::external_body]
pub fn push_char(s: &mut String, c: char)
    ensures
        final(s)@ == old(s)@.push(c),
{
    s.push(c);
}

/// Builds a character from its scalar value.
///
/// Trusted: calls `char::from_u32`, which the standard library documents as
/// returning `None` exactly for values above `0x10FFFF` and for surrogates
/// (`0xD800..=0xDFFF`), and the character with that value otherwise.
#[verifier::external_body]
pub fn char_from_u32(u: u32) -> (r: Option<char>)
    ensures
        (u <= 0x10FFFF && !(0xD800 <= u <= 0xDFFF)) ==> r == Some(u as char),
        !(u <= 0x10FFFF && !(0xD800 <= u <= 0xDFFF)) ==> r is None,
{
    char::from_u32(u)
}

/// The characters of `s`, in order.
pub fn chars_of(s: &str) -> (v: Vec<char>)
    ensures
        v@ == s@,
{
    let mut v: Vec<char> = Vec::new();
    for c in it: s.chars()
        invariant
            v@ == it.seq().take(it.index() as int),
            it.seq() == s@,
    {
        v.push(c);
    }
    v
}

/// A string holding `v[from..to]`.
pub fn string_from_range(v: &Vec<char>, from: usize, to: usize) -> (s: String)
    requires
        from <= to <= v.len(),
    ensures
        s@ == v@.subrange(from as int, to as int),
{
    let mut s = String::new();
    let mut i = from;
    while i < to
        invariant
            from <= i <= to <= v.len(),
            s@ == v@.subrange(from as int, i as int),
        decreases to - i,
    {
        push_char(&mut s, v[i]);
        i = i + 1;
        assert(s@ =~= v@.subrange(from as int, i as int));
    }
    s
}

/// A two-character string.
pub fn string_of_pair(a: char, b: char) -> (s: String)
    ensures
        s@ == seq![a, b],
{
    let mut s = String::new();
    push_char(&mut s, a);
    push_char(&mut s, b);
    assert(s@ =~= seq![a, b]);
    s
}

/// A copy of a string literal or slice.
pub fn owned(s: &str) -> (r: String)
    ensures
        r@ == s@,
{
    String::from_str(s)
}

/// `a` followed by `b`.
pub fn concat(a: &str, b: &str) -> (r: String)
    ensures
        r@ == a@ + b@,
{
    let mut r = String::from_str(a);
    r.append(b);
    r
}

/// `a`, `b` and `c` one after another.
pub fn concat3(a: &str, b: &str, c: &str) -> (r: String)
    ensures
        r@ == a@ + b@ + c@,
{
    let mut r = String::from_str(a);
    r.append(b);
    r.append(c);
    r
}

/// `n` occurs in `h` as a contiguous run of characters.
pub open spec fn has_infix(h: Seq<char>, n: Seq<char>) -> bool {
    exists|i: int| 0 <= i && i + n.len() <= h.len() && #[trigger] h.subrange(i, i + n.len()) == n
}

/// `n` occurs in `h` starting at index `i`.
pub open spec fn occurs_at(h: Seq<char>, n: Seq<char>, i: int) -> bool {
    0 <= i && i + n.len() <= h.len() && h.subrange(i, i + n.len()) == n
}

fn matches_at(h: &Vec<char>, n: &Vec<char>, i: usize) -> (b: bool)
    requires
        i + n.len() <= h.len(),
    ensures
        b == (h@.subrange(i as int, i + n.len()) == n@),
{
    let mut k: usize = 0;
    while k < n.len()
        invariant
            i + n.len() <= h.len(),
            k <= n.len(),
            forall|j: int| 0 <= j < k ==> h@[i + j] == n@[j],
        decreases n.len() - k,
    {
        if h[i + k] != n[k] {
            assert(h@.subrange(i as int, i + n.len())[k as int] != n@[k as int]);
            return false;
        }
        k = k + 1;
    }
    assert(h@.subrange(i as int, i + n.len()) =~= n@);
    true
}

/// Whether `n` occurs in `h` (an empty `n` occurs in every `h`).
pub fn contains_chars(h: &Vec<char>, n: &Vec<char>) -> (b: bool)
    ensures
        b == has_infix(h@, n@),
{
    if n.len() > h.len() {
        return false;
    }
    let last = h.len() - n.len();
    let mut i: usize = 0;
    loop
        invariant_except_break
            n.len() <= h.len(),
            last == h.len() - n.len(),
            i <= last,
            forall|j: int| 0 <= j < i ==> !occurs_at(h@, n@, j),
        ensures
            forall|j: int| 0 <= j <= last ==> !occurs_at(h@, n@, j),
        decreases last - i,
    {
        if matches_at(h, n, i) {
            assert(occurs_at(h@, n@, i as int));
            return true;
        }
        if i == last {
            break;
        }
        i = i + 1;
    }
    assert forall|j: int|
        0 <= j && j + n@.len() <= h@.len() implies #[trigger] h@.subrange(j, j + n@.len())
        != n@ by {
        assert(!occurs_at(h@, n@, j));
    }
    false
}

/// Whether the character `c` occurs in `h`.
pub fn contains_char(h: &Vec<char>, c: char) -> (b: bool)
    ensures
        b == h@.contains(c),
{
    match find_char(h, c) {
        Some(i) => true,
        None => false,
    }
}

/// The index of the first `c` in `v`.
pub fn find_char(v: &Vec<char>, c: char) -> (r: Option<usize>)
    ensures
        r matches Some(i) ==> i < v.len() && v@[i as int] == c && forall|j: int|
            0 <= j < i ==> v@[j] != c,
        r is None ==> forall|j: int| 0 <= j < v.len() ==> v@[j] != c,
        r is None <==> !v@.contains(c),
{
    let mut i: usize = 0;
    while i < v.len()
        invariant
            i <= v.len(),
            forall|j: int| 0 <= j < i ==> v@[j] != c,
        decreases v.len() - i,
    {
        if v[i] == c {
            return Some(i);
        }
        i = i + 1;
    }
    None
}

/// Equality of two character sequences.
pub fn chars_eq(a: &Vec<char>, b: &Vec<char>) -> (r: bool)
    ensures
        r == (a@ == b@),
{
    if a.len() != b.len() {
        return false;
    }
    let mut i: usize = 0;
    while i < a.len()
        invariant
            a.len() == b.len(),
            i <= a.len(),
            forall|j: int| 0 <= j < i ==> a@[j] == b@[j],
        decreases a.len() - i,
    {
        if a[i] != b[i] {
            return false;
        }
        i = i + 1;
    }
    assert(a@ =~= b@);
    true
}

/// Equality of a string and a slice, by their characters.
pub fn str_eq(a: &str, b: &str) -> (r: bool)
    ensures
        r == (a@ == b@),
{
    let x = chars_of(a);
    let y = chars_of(b);
    chars_eq(&x, &y)
}

/// What `str::trim_start` leaves: leading white space removed.
pub open spec fn trim_start(s: Seq<char>) -> Seq<char>
    decreases s.len(),
{
    if s.len() > 0 && is_ws(s[0]) {
        trim_start(s.drop_first())
    } else {
        s
    }
}

/// What `str::trim_end` leaves: trailing white space removed.
pub open spec fn trim_end(s: Seq<char>) -> Seq<char>
    decreases s.len(),
{
    if s.len() > 0 && is_ws(s.last()) {
        trim_end(s.drop_last())
    } else {
        s
    }
}

/// What `str::trim` leaves: white space removed at both ends.
pub open spec fn trim(s: Seq<char>) -> Seq<char> {
    trim_end(trim_start(s))
}

/// The start of `v[from..]` once its leading white space is skipped.
pub fn skip_leading_ws(v: &Vec<char>, from: usize) -> (i: usize)
    requires
        from <= v.len(),
    ensures
        from <= i <= v.len(),
        trim_start(v@.subrange(from as int, v.len() as int)) == v@.subrange(
            i as int,
            v.len() as int,
        ),
        forall|k: int| from <= k < i ==> is_ws(#[trigger] v@[k]),
        i < v.len() ==> !is_ws(v@[i as int]),
{
    let mut i = from;
    while i < v.len() && is_whitespace(v[i])
        invariant
            from <= i <= v.len(),
            trim_start(v@.subrange(from as int, v.len() as int)) == trim_start(
                v@.subrange(i as int, v.len() as int),
            ),
            forall|k: int| from <= k < i ==> is_ws(#[trigger] v@[k]),
        decreases v.len() - i,
    {
        assert(v@.subrange(i as int, v.len() as int).drop_first() =~= v@.subrange(
            i + 1,
            v.len() as int,
        ));
        i = i + 1;
    }
    i
}

/// The end of `v[from..to]` once its trailing white space is dropped.
pub fn skip_trailing_ws(v: &Vec<char>, from: usize, to: usize) -> (j: usize)
    requires
        from <= to <= v.len(),
    ensures
        from <= j <= to,
        trim_end(v@.subrange(from as int, to as int)) == v@.subrange(from as int, j as int),
{
    let mut j = to;
    while j > from && is_whitespace(v[j - 1])
        invariant
            from <= j <= to <= v.len(),
            trim_end(v@.subrange(from as int, to as int)) == trim_end(
                v@.subrange(from as int, j as int),
            ),
        decreases j - from,
    {
        assert(v@.subrange(from as int, j as int).drop_last() =~= v@.subrange(
            from as int,
            j - 1,
        ));
        j = j - 1;
    }
    j
}

/// `v[from..to]` with white space removed at both ends.
pub fn trimmed_range(v: &Vec<char>, from: usize, to: usize) -> (r: String)
    requires
        from <= to <= v.len(),
    ensures
        r@ == trim(v@.subrange(from as int, to as int)),
{
    let ghost s = v@.subrange(from as int, to as int);
    let ghost w = v@.subrange(from as int, v.len() as int);
    let i = skip_leading_ws(v, from);
    // leading white space of the range equals that of v[from..] as far as it lies inside
    proof {
        lemma_trim_start_prefix(v@, from as int, to as int, i as int);
    }
    let start = if i < to { i } else { to };
    let j = skip_trailing_ws(v, start, to);
    string_from_range(v, start, j)
}

/// Trimming `v[from..to]` at the start skips to `min(i, to)` when `i` is where
/// the white space run starting at `from` ends.
proof fn lemma_trim_start_prefix(v: Seq<char>, from: int, to: int, i: int)
    requires
        0 <= from <= to <= v.len(),
        from <= i <= v.len(),
        forall|k: int| from <= k < i ==> is_ws(#[trigger] v[k]),
        i < v.len() ==> !is_ws(v[i]),
    ensures
        trim_start(v.subrange(from, to)) == v.subrange(if i < to { i } else { to }, to),
    decreases i - from,
{
    let s = v.subrange(from, to);
    if from == to {
        assert(s.len() == 0);
        assert(v.subrange(to, to) =~= s);
    } else if from == i {
        assert(!is_ws(s[0]));
    } else {
        assert(is_ws(s[0]));
        assert(s.drop_first() =~= v.subrange(from + 1, to));
        lemma_trim_start_prefix(v, from + 1, to, i);
    }
}

/// A whole string with white space removed at both ends.
pub fn trim_string(s: &str) -> (r: String)
    ensures
        r@ == trim(s@),
{
    let v = chars_of(s);
    let r = trimmed_range(&v, 0, v.len());
    assert(v@.subrange(0, v@.len() as int) =~= v@);
    r
}


/// Lexicographic order of character sequences by scalar value, the order in
/// which `String`'s `Ord` puts strings (UTF-8 keeps scalar-value order).
pub open spec fn seq_lt(a: Seq<char>, b: Seq<char>) -> bool
    decreases a.len(),
{
    if a.len() == 0 {
        b.len() > 0
    } else if b.len() == 0 {
        false
    } else if a[0] != b[0] {
        a[0] < b[0]
    } else {
        seq_lt(a.drop_first(), b.drop_first())
    }
}

pub proof fn lemma_seq_lt_irreflexive(a: Seq<char>)
    ensures
        !seq_lt(a, a),
    decreases a.len(),
{
    if a.len() > 0 {
        lemma_seq_lt_irreflexive(a.drop_first());
    }
}

pub proof fn lemma_seq_lt_transitive(a: Seq<char>, b: Seq<char>, c: Seq<char>)
    requires
        seq_lt(a, b),
        seq_lt(b, c),
    ensures
        seq_lt(a, c),
    decreases a.len(),
{
    if a.len() > 0 && b.len() > 0 && c.len() > 0 {
        if a[0] == b[0] && b[0] == c[0] {
            lemma_seq_lt_transitive(a.drop_first(), b.drop_first(), c.drop_first());
        }
    }
}

pub proof fn lemma_seq_lt_total(a: Seq<char>, b: Seq<char>)
    ensures
        seq_lt(a, b) || a == b || seq_lt(b, a),
    decreases a.len(),
{
    if a.len() == 0 && b.len() == 0 {
        assert(a =~= b);
    } else if a.len() > 0 && b.len() > 0 && a[0] == b[0] {
        lemma_seq_lt_total(a.drop_first(), b.drop_first());
        if a.drop_first() == b.drop_first() {
            assert(a.drop_first().len() == b.drop_first().len());
            assert(a.len() == b.len());
            assert forall|i: int| 0 <= i < a.len() implies a[i] == b[i] by {
                if i > 0 {
                    assert(a[i] == a.drop_first()[i - 1]);
                    assert(b[i] == b.drop_first()[i - 1]);
                }
            }
            assert(a =~= b);
        }
    }
}

pub proof fn lemma_seq_lt_asymmetric(a: Seq<char>, b: Seq<char>)
    ensures
        !(seq_lt(a, b) && seq_lt(b, a)),
{
    if seq_lt(a, b) && seq_lt(b, a) {
        lemma_seq_lt_transitive(a, b, a);
        lemma_seq_lt_irreflexive(a);
    }
}

/// Whether `a` comes strictly before `b` in lexicographic order.
pub fn chars_lt(a: &Vec<char>, b: &Vec<char>) -> (r: bool)
    ensures
        r == seq_lt(a@, b@),
{
    let mut i: usize = 0;
    assert(a@.skip(0) =~= a@);
    assert(b@.skip(0) =~= b@);
    while i < a.len() && i < b.len() && a[i] == b[i]
        invariant
            i <= a.len(),
            i <= b.len(),
            seq_lt(a@, b@) == seq_lt(a@.skip(i as int), b@.skip(i as int)),
        decreases a.len() - i,
    {
        assert(a@.skip(i as int).drop_first() =~= a@.skip(i + 1));
        assert(b@.skip(i as int).drop_first() =~= b@.skip(i + 1));
        i = i + 1;
    }
    if i == a.len() {
        i < b.len()
    } else if i == b.len() {
        false
    } else {
        a[i] < b[i]
    }
}

/// Whether `a` comes strictly before `b` in lexicographic order.
pub fn str_lt(a: &str, b: &str) -> (r: bool)
    ensures
        r == seq_lt(a@, b@),
{
    let x = chars_of(a);
    let y = chars_of(b);
    chars_lt(&x, &y)
}

pub open spec fn digit_char(d: nat) -> char {
    ((('0' as u32) as nat) + d) as char
}

/// The decimal numeral of `n`, without leading zeros.
pub open spec fn decimal(n: nat) -> Seq<char>
    decreases n,
{
    if n < 10 {
        seq![digit_char(n)]
    } else {
        decimal(n / 10).push(digit_char(n % 10))
    }
}

/// Appends the decimal numeral of `n` to `s`.
pub fn push_decimal(s: &mut String, n: u64)
    ensures
        final(s)@ == old(s)@ + decimal(n as nat),
    decreases n,
{
    if n >= 10 {
        push_decimal(s, n / 10);
    }
    let d: u8 = (n % 10) as u8;
    let c: char = (48u8 + d) as char;
    push_char(s, c);
    assert(final(s)@ =~= old(s)@ + decimal(n as nat));
}


/// What `str::to_uppercase` returns for a string: Unicode upper-casing.
pub uninterp spec fn str_to_uppercase(s: Seq<char>) -> Seq<char>;

/// What `str::to_lowercase` returns for a string: Unicode lower-casing.
pub uninterp spec fn str_to_lowercase(s: Seq<char>) -> Seq<char>;

/// Upper-cases a string.
///
/// Trusted: calls `str::to_uppercase`. Its result is named by
/// `str_to_uppercase`; beyond that the contract only states what the
/// Unicode mapping does on ASCII text (letters `a`-`z` become `A`-`Z`, every
/// other ASCII character is kept). What it does to other characters is left
/// unsaid.
#[verifier::external_body]
pub(crate) fn to_uppercase(s: &str) -> (r: String)
    ensures
        r@ == str_to_uppercase(s@),
        is_ascii_seq(s@) ==> r@ == ascii_upper_seq(s@),
{
    s.to_uppercase()
}

/// Lower-cases a string.
///
/// Trusted: calls `str::to_lowercase`. Its result is named by
/// `str_to_lowercase`; beyond that the contract only states what the
/// Unicode mapping does on ASCII text (letters `A`-`Z` become `a`-`z`, every
/// other ASCII character is kept). What it does to other characters is left
/// unsaid.
#[verifier::external_body]
pub(crate) fn to_lowercase(s: &str) -> (r: String)
    ensures
        r@ == str_to_lowercase(s@),
        is_ascii_seq(s@) ==> r@ == ascii_lower_seq(s@),
{
    s.to_lowercase()
}

/// `parts` joined with `sep` between neighbours.
pub open spec fn seq_join(parts: Seq<Seq<char>>, sep: Seq<char>) -> Seq<char>
    decreases parts.len(),
{
    if parts.len() == 0 {
        seq![]
    } else if parts.len() == 1 {
        parts[0]
    } else {
        seq_join(parts.drop_last(), sep) + sep + parts.last()
    }
}

/// The strings of `parts` joined with `sep` between neighbours.
pub fn join_strings(parts: &Vec<String>, sep: &str) -> (r: String)
    ensures
        r@ == seq_join(parts@.map_values(|s: String| s@), sep@),
{
    let ghost pv = parts@.map_values(|s: String| s@);
    let mut r = String::new();
    let mut i: usize = 0;
    assert(pv.take(0) =~= seq![]);
    while i < parts.len()
        invariant
            pv == parts@.map_values(|s: String| s@),
            pv.len() == parts.len(),
            i <= parts.len(),
            r@ == seq_join(pv.take(i as int), sep@),
        decreases parts.len() - i,
    {
        assert(pv.take(i + 1).drop_last() =~= pv.take(i as int));
        if i > 0 {
            r.append(sep);
        }
        r.append(parts[i].as_str());
        proof {
            if i == 0 {
                assert(r@ =~= seq_join(pv.take(1), sep@));
            }
        }
        i = i + 1;
    }
    assert(pv.take(i as int) =~= pv);
    r
}

/// What `{:?}` prints for a string: the quoted, escaped text.
pub uninterp spec fn str_debug(s: Seq<char>) -> Seq<char>;

/// The debug form of a string.
///
/// Trusted: calls `<str as Debug>::fmt` through `format!("{:?}", s)`. The
/// result is named by `str_debug`; how characters are escaped is left unsaid.
#[verifier::external_body]
pub(crate) fn debug_str(s: &str) -> (r: String)
    ensures
        r@ == str_debug(s@),
{
    format!("{:?}", s)
}

/// What `{:?}` prints for an optional string.
pub open spec fn opt_debug(o: Option<Seq<char>>) -> Seq<char> {
    match o {
        Some(s) => "Some("@ + str_debug(s) + ")"@,
        None => "None"@,
    }
}

/// The debug form of an optional string, as `Option`'s derived `Debug` writes it.
pub fn debug_opt_string(o: &Option<String>) -> (r: String)
    ensures
        r@ == opt_debug(match o {
            Some(s) => Some(s@),
            None => None,
        }),
{
    match o {
        Some(s) => {
            let d = debug_str(s.as_str());
            concat3("Some(", d.as_str(), ")")
        },
        None => owned("None"),
    }
}

} // verus!
