//! Character-level utilities shared by the VM code generator and the
//! assembler: whitespace handling, comment stripping, tokenising, the symbol
//! grammar, and decimal/binary renderings of machine words.
use vstd::prelude::*;

verus! {

/// Whitespace, as both stages treat it: the characters with the Unicode
/// `White_Space` property, which is what `str::trim` and `split_whitespace`
/// go by.
pub open spec fn is_ws_char(c: char) -> bool {
    ('\u{0009}' <= c && c <= '\u{000D}') || c == ' ' || c == '\u{0085}' || c == '\u{00A0}' || c
        == '\u{1680}' || ('\u{2000}' <= c && c <= '\u{200A}') || c == '\u{2028}' || c
        == '\u{2029}' || c == '\u{202F}' || c == '\u{205F}' || c == '\u{3000}'
}

pub fn is_ws(c: char) -> (r: bool)
    ensures
        r == is_ws_char(c),
{
    ('\u{0009}' <= c && c <= '\u{000D}') || c == ' ' || c == '\u{0085}' || c == '\u{00A0}' || c
        == '\u{1680}' || ('\u{2000}' <= c && c <= '\u{200A}') || c == '\u{2028}' || c
        == '\u{2029}' || c == '\u{202F}' || c == '\u{205F}' || c == '\u{3000}'
}

/// Whether two string slices hold the same characters.
pub fn str_eq(a: &str, b: &str) -> (r: bool)
    ensures
        r == (a@ == b@),
{
    let alen = a.unicode_len();
    let blen = b.unicode_len();
    if alen != blen {
        return false;
    }
    let mut i: usize = 0;
    while i < alen
        invariant
            alen == a@.len(),
            blen == b@.len(),
            alen == blen,
            i <= alen,
            forall|j: int| 0 <= j < i ==> a@[j] == b@[j],
        decreases alen - i,
    {
        if a.get_char(i) != b.get_char(i) {
            return false;
        }
        i = i + 1;
    }
    proof {
        assert(a@ =~= b@);
    }
    true
}

/// Index of the first non-whitespace character at or after `i`.
pub open spec fn spec_skip_ws(s: Seq<char>, i: int) -> int
    recommends
        0 <= i <= s.len(),
    decreases s.len() - i when 0 <= i <= s.len()
{
    if i < s.len() && is_ws_char(s[i]) {
        spec_skip_ws(s, i + 1)
    } else {
        i
    }
}

pub fn skip_ws(s: &str, i: usize) -> (r: usize)
    requires
        i <= s@.len(),
    ensures
        r == spec_skip_ws(s@, i as int),
        i <= r <= s@.len(),
    decreases s@.len() - i,
{
    if i < s.unicode_len() {
        if is_ws(s.get_char(i)) {
            return skip_ws(s, i + 1);
        }
    }
    i
}

/// Index of the first whitespace character (or the end) at or after `i`.
pub open spec fn spec_skip_token(s: Seq<char>, i: int) -> int
    recommends
        0 <= i <= s.len(),
    decreases s.len() - i when 0 <= i <= s.len()
{
    if i < s.len() && !is_ws_char(s[i]) {
        spec_skip_token(s, i + 1)
    } else {
        i
    }
}

pub fn skip_token(s: &str, i: usize) -> (r: usize)
    requires
        i <= s@.len(),
    ensures
        r == spec_skip_token(s@, i as int),
        i <= r <= s@.len(),
    decreases s@.len() - i,
{
    if i < s.unicode_len() {
        if !is_ws(s.get_char(i)) {
            return skip_token(s, i + 1);
        }
    }
    i
}

/// The `n`-th whitespace-separated token of `s` starting the scan at `i`;
/// the empty sequence when there are fewer than `n + 1` tokens left.
pub open spec fn spec_token_n(s: Seq<char>, i: int, n: nat) -> Seq<char>
    recommends
        0 <= i <= s.len(),
    decreases n,
{
    let a = spec_skip_ws(s, i);
    let b = spec_skip_token(s, a);
    if n == 0 {
        s.subrange(a, b)
    } else {
        spec_token_n(s, b, (n - 1) as nat)
    }
}

pub fn token_n(s: &str, i: usize, n: usize) -> (r: String)
    requires
        i <= s@.len(),
    ensures
        r@ == spec_token_n(s@, i as int, n as nat),
    decreases n,
{
    let a = skip_ws(s, i);
    let b = skip_token(s, a);
    if n == 0 {
        String::from_str(s.substring_char(a, b))
    } else {
        token_n(s, b, n - 1)
    }
}

/// Index of the first `//` comment opener at or after `i`, or `s.len()`.
pub open spec fn spec_comment_start(s: Seq<char>, i: int) -> int
    recommends
        0 <= i <= s.len(),
    decreases s.len() - i when 0 <= i <= s.len()
{
    if i + 1 < s.len() {
        if s[i] == '/' && s[i + 1] == '/' {
            i
        } else {
            spec_comment_start(s, i + 1)
        }
    } else {
        s.len() as int
    }
}

pub fn comment_start(s: &str, i: usize) -> (r: usize)
    requires
        i <= s@.len(),
    ensures
        r == spec_comment_start(s@, i as int),
        i <= r <= s@.len() || r == s@.len(),
    decreases s@.len() - i,
{
    let n = s.unicode_len();
    if n > 0 && i < n - 1 {
        if s.get_char(i) == '/' && s.get_char(i + 1) == '/' {
            return i;
        }
        return comment_start(s, i + 1);
    }
    n
}

/// Index just after the last non-whitespace character strictly before `j`.
pub open spec fn spec_trim_end(s: Seq<char>, j: int) -> int
    recommends
        0 <= j <= s.len(),
    decreases j when j >= 0
{
    if j > 0 && is_ws_char(s[j - 1]) {
        spec_trim_end(s, j - 1)
    } else {
        j
    }
}

pub fn trim_end_index(s: &str, j: usize) -> (r: usize)
    requires
        j <= s@.len(),
    ensures
        r == spec_trim_end(s@, j as int),
        r <= j,
    decreases j,
{
    if j > 0 {
        if is_ws(s.get_char(j - 1)) {
            return trim_end_index(s, j - 1);
        }
    }
    j
}

/// `s` with leading and trailing whitespace removed.
pub open spec fn spec_trim(s: Seq<char>) -> Seq<char> {
    let a = spec_skip_ws(s, 0);
    if a == s.len() {
        Seq::empty()
    } else {
        s.subrange(a, spec_trim_end(s, s.len() as int))
    }
}

/// Skipping whitespace stops at the end or on a non-whitespace character.
proof fn lemma_skip_ws_stops(s: Seq<char>, i: int)
    requires
        0 <= i <= s.len(),
    ensures
        spec_skip_ws(s, i) == s.len() || !is_ws_char(s[spec_skip_ws(s, i)]),
    decreases s.len() - i,
{
    if i < s.len() && is_ws_char(s[i]) {
        lemma_skip_ws_stops(s, i + 1);
    }
}

/// When `s[a]` is not whitespace, trimming from the right cannot pass `a`.
proof fn lemma_trim_end_above(s: Seq<char>, j: int, a: int)
    requires
        0 <= a < j <= s.len(),
        !is_ws_char(s[a]),
    ensures
        spec_trim_end(s, j) > a,
    decreases j,
{
    if j > 0 && is_ws_char(s[j - 1]) {
        lemma_trim_end_above(s, j - 1, a);
    }
}

pub fn trim(s: &str) -> (r: String)
    ensures
        r@ == spec_trim(s@),
{
    let a = skip_ws(s, 0);
    if a == s.unicode_len() {
        proof {
            assert(spec_trim(s@) =~= Seq::<char>::empty());
        }
        return String::new();
    }
    let b = trim_end_index(s, s.unicode_len());
    proof {
        lemma_skip_ws_stops(s@, 0);
        lemma_trim_end_above(s@, s@.len() as int, a as int);
    }
    String::from_str(s.substring_char(a, b))
}

/// A source line with any `//` comment removed and the rest trimmed.
pub open spec fn spec_clean_line(s: Seq<char>) -> Seq<char> {
    spec_trim(s.subrange(0, spec_comment_start(s, 0)))
}

pub fn clean_line(line: &str) -> (r: String)
    ensures
        r@ == spec_clean_line(line@),
{
    let e = comment_start(line, 0);
    let before = line.substring_char(0, e);
    trim(before)
}

/// Symbols may open with a letter or one of `_` `.` `$` `:`.
pub open spec fn is_symbol_start_char(c: char) -> bool {
    ('A' <= c && c <= 'Z') || ('a' <= c && c <= 'z') || c == '_' || c == '.' || c == '$' || c
        == ':'
}

pub open spec fn is_digit_char(c: char) -> bool {
    '0' <= c && c <= '9'
}

/// After the first character, digits are allowed as well.
pub open spec fn is_symbol_char(c: char) -> bool {
    is_symbol_start_char(c) || is_digit_char(c)
}

/// The symbol grammar: a symbol-start character followed by any number of
/// symbol characters.
pub open spec fn spec_is_symbol(s: Seq<char>) -> bool {
    s.len() > 0 && is_symbol_start_char(s[0]) && (forall|i: int|
        1 <= i < s.len() ==> is_symbol_char(#[trigger] s[i]))
}

/// A non-empty run of decimal digits.
pub open spec fn spec_is_number(s: Seq<char>) -> bool {
    s.len() > 0 && (forall|i: int| 0 <= i < s.len() ==> is_digit_char(#[trigger] s[i]))
}

fn is_symbol_start(c: char) -> (r: bool)
    ensures
        r == is_symbol_start_char(c),
{
    ('A' <= c && c <= 'Z') || ('a' <= c && c <= 'z') || c == '_' || c == '.' || c == '$' || c
        == ':'
}

fn is_digit(c: char) -> (r: bool)
    ensures
        r == is_digit_char(c),
{
    '0' <= c && c <= '9'
}

pub fn is_symbol(s: &str) -> (r: bool)
    ensures
        r == spec_is_symbol(s@),
{
    let n = s.unicode_len();
    if n == 0 {
        return false;
    }
    if !is_symbol_start(s.get_char(0)) {
        return false;
    }
    let mut i: usize = 1;
    while i < n
        invariant
            n == s@.len(),
            1 <= i <= n,
            forall|j: int| 1 <= j < i ==> is_symbol_char(#[trigger] s@[j]),
        decreases n - i,
    {
        let c = s.get_char(i);
        if !(is_symbol_start(c) || is_digit(c)) {
            return false;
        }
        i = i + 1;
    }
    true
}

pub fn is_number(s: &str) -> (r: bool)
    ensures
        r == spec_is_number(s@),
{
    let n = s.unicode_len();
    if n == 0 {
        return false;
    }
    let mut i: usize = 0;
    while i < n
        invariant
            n == s@.len(),
            i <= n,
            forall|j: int| 0 <= j < i ==> is_digit_char(#[trigger] s@[j]),
        decreases n - i,
    {
        if !is_digit(s.get_char(i)) {
            return false;
        }
        i = i + 1;
    }
    true
}

/// Numeric value of a decimal digit character.
pub open spec fn spec_digit_val(c: char) -> int {
    c as int - '0' as int
}

/// The value a run of decimal digits denotes, with no width limit.
pub open spec fn spec_dec_val(s: Seq<char>) -> int
    decreases s.len(),
{
    if s.len() == 0 {
        0
    } else {
        spec_dec_val(s.drop_last()) * 10 + spec_digit_val(s.last())
    }
}

proof fn lemma_dec_val_nonneg(s: Seq<char>)
    requires
        forall|i: int| 0 <= i < s.len() ==> is_digit_char(#[trigger] s[i]),
    ensures
        spec_dec_val(s) >= 0,
    decreases s.len(),
{
    if s.len() > 0 {
        lemma_dec_val_nonneg(s.drop_last());
    }
}

/// Each further digit can only keep the value or grow it.
proof fn lemma_dec_val_prefix_le(s: Seq<char>, i: int)
    requires
        0 <= i <= s.len(),
        forall|j: int| 0 <= j < s.len() ==> is_digit_char(#[trigger] s[j]),
    ensures
        spec_dec_val(s.subrange(0, i)) <= spec_dec_val(s),
    decreases s.len() - i,
{
    if i < s.len() {
        lemma_dec_val_prefix_le(s, i + 1);
        let p = s.subrange(0, i);
        let q = s.subrange(0, i + 1);
        assert(q.drop_last() =~= p);
        assert(forall|j: int| 0 <= j < p.len() ==> is_digit_char(#[trigger] p[j]));
        lemma_dec_val_nonneg(p);
    } else {
        assert(s.subrange(0, i) =~= s);
    }
}

/// Parses a run of digits as an address fitting the 15-bit space; `None` for
/// anything that is not a digit run or denotes a value above `0x7FFF`.
pub fn parse_index(s: &str) -> (r: Option<u16>)
    ensures
        spec_is_number(s@) && spec_dec_val(s@) <= 0x7FFF ==> r == Some(
            (spec_dec_val(s@)) as u16,
        ),
        !(spec_is_number(s@) && spec_dec_val(s@) <= 0x7FFF) ==> r is None,
{
    if !is_number(s) {
        return None;
    }
    let n = s.unicode_len();
    let mut v: u32 = 0;
    let mut i: usize = 0;
    while i < n
        invariant
            n == s@.len(),
            spec_is_number(s@),
            i <= n,
            v == spec_dec_val(s@.subrange(0, i as int)),
            v <= 0x7FFF,
        decreases n - i,
    {
        let c = s.get_char(i);
        let d: u32 = (c as u32) - ('0' as u32);
        proof {
            assert(is_digit_char(s@[i as int]));
            assert(s@.subrange(0, i + 1 as int).drop_last() =~= s@.subrange(0, i as int));
            assert(s@.subrange(0, i + 1 as int).last() == s@[i as int]);
        }
        let w: u32 = v * 10 + d;
        if w > 0x7FFF {
            proof {
                lemma_dec_val_prefix_le(s@, i + 1 as int);
            }
            return None;
        }
        v = w;
        i = i + 1;
    }
    proof {
        assert(s@.subrange(0, n as int) =~= s@);
    }
    Some(v as u16)
}

/// Parses a run of digits modulo `0x8000`: the 15-bit masking the hardware
/// applies to address literals, so oversized literals wrap instead of failing.
pub fn parse_dec_masked(s: &str) -> (r: u16)
    requires
        spec_is_number(s@),
    ensures
        r == spec_dec_val(s@) % 0x8000,
        r < 0x8000,
{
    let n = s.unicode_len();
    let mut v: u32 = 0;
    let mut i: usize = 0;
    while i < n
        invariant
            n == s@.len(),
            spec_is_number(s@),
            i <= n,
            v == spec_dec_val(s@.subrange(0, i as int)) % 0x8000,
            v < 0x8000,
        decreases n - i,
    {
        let c = s.get_char(i);
        let d: u32 = (c as u32) - ('0' as u32);
        proof {
            assert(is_digit_char(s@[i as int]));
            assert(s@.subrange(0, i + 1 as int).drop_last() =~= s@.subrange(0, i as int));
            assert(s@.subrange(0, i + 1 as int).last() == s@[i as int]);
            let p = spec_dec_val(s@.subrange(0, i as int));
            assert(forall|j: int|
                0 <= j < s@.subrange(0, i as int).len() ==> is_digit_char(
                    #[trigger] s@.subrange(0, i as int)[j],
                ));
            lemma_dec_val_nonneg(s@.subrange(0, i as int));
            lemma_mod_mul10_add(p, spec_digit_val(s@[i as int]));
        }
        v = (v * 10 + d) % 0x8000;
        i = i + 1;
    }
    proof {
        assert(s@.subrange(0, n as int) =~= s@);
    }
    v as u16
}

/// Folding the mask through the accumulator step leaves the value unchanged:
/// `((p % m) * 10 + d) % m == (p * 10 + d) % m` for `m == 0x8000`.
proof fn lemma_mod_mul10_add(p: int, d: int)
    requires
        p >= 0,
        0 <= d,
    ensures
        ((p % 0x8000) * 10 + d) % 0x8000 == (p * 10 + d) % 0x8000,
{
    let m = 0x8000int;
    let q = p / m;
    let r = p % m;
    vstd::arithmetic::div_mod::lemma_fundamental_div_mod(p, m);
    assert(p * 10 + d == m * (q * 10) + (r * 10 + d));
    assert((m * (q * 10) + (r * 10 + d)) % m == (r * 10 + d) % m) by {
        vstd::arithmetic::div_mod::lemma_mod_multiples_vanish(q * 10, r * 10 + d, m);
    }
}

/// The decimal digit character for a value below ten.
pub open spec fn spec_digit_char(d: int) -> char {
    if d == 0 {
        '0'
    } else if d == 1 {
        '1'
    } else if d == 2 {
        '2'
    } else if d == 3 {
        '3'
    } else if d == 4 {
        '4'
    } else if d == 5 {
        '5'
    } else if d == 6 {
        '6'
    } else if d == 7 {
        '7'
    } else if d == 8 {
        '8'
    } else {
        '9'
    }
}

/// The ordinary decimal rendering of a non-negative number, no leading zeros.
pub open spec fn spec_dec(n: int) -> Seq<char>
    recommends
        n >= 0,
    decreases n when n >= 0
{
    if n < 10 {
        seq![spec_digit_char(n)]
    } else {
        spec_dec(n / 10).push(spec_digit_char(n % 10))
    }
}

fn digit_str(d: u64) -> (r: &'static str)
    requires
        d < 10,
    ensures
        r@ =~= seq![spec_digit_char(d as int)],
{
    proof {
        reveal_strlit("0");
        reveal_strlit("1");
        reveal_strlit("2");
        reveal_strlit("3");
        reveal_strlit("4");
        reveal_strlit("5");
        reveal_strlit("6");
        reveal_strlit("7");
        reveal_strlit("8");
        reveal_strlit("9");
    }
    if d == 0 {
        "0"
    } else if d == 1 {
        "1"
    } else if d == 2 {
        "2"
    } else if d == 3 {
        "3"
    } else if d == 4 {
        "4"
    } else if d == 5 {
        "5"
    } else if d == 6 {
        "6"
    } else if d == 7 {
        "7"
    } else if d == 8 {
        "8"
    } else {
        "9"
    }
}

/// Renders a number in decimal.
pub fn dec_string(n: u64) -> (r: String)
    ensures
        r@ == spec_dec(n as int),
    decreases n,
{
    if n < 10 {
        String::from_str(digit_str(n))
    } else {
        let mut s = dec_string(n / 10);
        s.append(digit_str(n % 10));
        proof {
            assert(s@ =~= spec_dec(n as int));
        }
        s
    }
}

/// A decimal rendering is never empty.
pub proof fn lemma_dec_len(n: int)
    requires
        n >= 0,
    ensures
        spec_dec(n).len() >= 1,
    decreases n,
{
    if n >= 10 {
        lemma_dec_len(n / 10);
    }
}

/// Distinct digits render to distinct digit characters.
proof fn lemma_digit_char_injective(x: int, y: int)
    requires
        0 <= x < 10,
        0 <= y < 10,
        spec_digit_char(x) == spec_digit_char(y),
    ensures
        x == y,
{
    assert(spec_digit_char(0) == '0');
    assert(spec_digit_char(1) == '1');
    assert(spec_digit_char(2) == '2');
    assert(spec_digit_char(3) == '3');
    assert(spec_digit_char(4) == '4');
    assert(spec_digit_char(5) == '5');
    assert(spec_digit_char(6) == '6');
    assert(spec_digit_char(7) == '7');
    assert(spec_digit_char(8) == '8');
    assert(spec_digit_char(9) == '9');
}

/// Distinct numbers render to distinct decimal texts.
pub proof fn lemma_dec_injective(a: int, b: int)
    requires
        a >= 0,
        b >= 0,
        spec_dec(a) == spec_dec(b),
    ensures
        a == b,
    decreases a,
{
    if a < 10 && b < 10 {
        assert(seq![spec_digit_char(a)][0] == spec_digit_char(a));
        assert(seq![spec_digit_char(b)][0] == spec_digit_char(b));
        assert(spec_dec(a)[0] == spec_dec(b)[0]);
        lemma_digit_char_injective(a, b);
    } else if a < 10 {
        lemma_dec_len(b / 10);
        assert(spec_dec(b).len() >= 2);
    } else if b < 10 {
        lemma_dec_len(a / 10);
        assert(spec_dec(a).len() >= 2);
    } else {
        assert(spec_dec(a) == spec_dec(a / 10).push(spec_digit_char(a % 10)));
        assert(spec_dec(b) == spec_dec(b / 10).push(spec_digit_char(b % 10)));
        assert(spec_dec(a).last() == spec_digit_char(a % 10));
        assert(spec_dec(b).last() == spec_digit_char(b % 10));
        lemma_digit_char_injective(a % 10, b % 10);
        assert(spec_dec(a).drop_last() =~= spec_dec(a / 10));
        assert(spec_dec(b).drop_last() =~= spec_dec(b / 10));
        lemma_dec_injective(a / 10, b / 10);
    }
}

/// The character for one bit of a 16-bit word, most significant first.
pub open spec fn spec_bit_char(w: u16, i: int) -> char {
    if (w >> ((15 - i) as u16)) & 1 == 1 {
        '1'
    } else {
        '0'
    }
}

/// The 16-character binary rendering of a machine word.
pub open spec fn spec_bin16(w: u16) -> Seq<char> {
    Seq::new(16, |i: int| spec_bit_char(w, i))
}

pub fn bin16_string(w: u16) -> (r: String)
    ensures
        r@ == spec_bin16(w),
{
    let mut s = String::new();
    let mut i: usize = 0;
    while i < 16
        invariant
            i <= 16,
            s@ =~= Seq::new(i as nat, |j: int| spec_bit_char(w, j)),
        decreases 16 - i,
    {
        let sh: u16 = 15 - (i as u16);
        let bit: u16 = (w >> sh) & 1;
        if bit == 1 {
            s.append("1");
        } else {
            s.append("0");
        }
        proof {
            reveal_strlit("1");
            reveal_strlit("0");
            assert(s@ =~= Seq::new((i + 1) as nat, |j: int| spec_bit_char(w, j)));
        }
        i = i + 1;
    }
    proof {
        assert(s@ =~= spec_bin16(w));
    }
    s
}

/// Index of the first occurrence of `c` at or after `i`, or `s.len()`.
pub open spec fn spec_index_of(s: Seq<char>, c: char, i: int) -> int
    recommends
        0 <= i <= s.len(),
    decreases s.len() - i when 0 <= i <= s.len()
{
    if i < s.len() {
        if s[i] == c {
            i
        } else {
            spec_index_of(s, c, i + 1)
        }
    } else {
        s.len() as int
    }
}

pub fn index_of(s: &str, c: char, i: usize) -> (r: usize)
    requires
        i <= s@.len(),
    ensures
        r == spec_index_of(s@, c, i as int),
        i <= r <= s@.len(),
    decreases s@.len() - i,
{
    if i < s.unicode_len() {
        if s.get_char(i) == c {
            return i;
        }
        return index_of(s, c, i + 1);
    }
    s.unicode_len()
}

/// `s` with leading whitespace removed.
pub open spec fn spec_trim_start(s: Seq<char>) -> Seq<char> {
    s.subrange(spec_skip_ws(s, 0), s.len() as int)
}

pub fn trim_start(s: &str) -> (r: String)
    ensures
        r@ == spec_trim_start(s@),
{
    let a = skip_ws(s, 0);
    String::from_str(s.substring_char(a, s.unicode_len()))
}

/// Index of the last occurrence of `c` strictly before `j`, or `-1`.
pub open spec fn spec_last_index_of(s: Seq<char>, c: char, j: int) -> int
    recommends
        0 <= j <= s.len(),
    decreases j when j >= 0
{
    if j <= 0 {
        -1
    } else if s[j - 1] == c {
        j - 1
    } else {
        spec_last_index_of(s, c, j - 1)
    }
}

/// The last occurrence of `c` in `s`, scanning backwards from `j`.
pub fn last_index_of(s: &str, c: char, j: usize) -> (r: Option<usize>)
    requires
        j <= s@.len(),
    ensures
        match r {
            Some(k) => k == spec_last_index_of(s@, c, j as int) && k < j,
            None => spec_last_index_of(s@, c, j as int) == -1,
        },
    decreases j,
{
    if j == 0 {
        None
    } else if s.get_char(j - 1) == c {
        Some(j - 1)
    } else {
        last_index_of(s, c, j - 1)
    }
}

} // verus!
