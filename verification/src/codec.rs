//! Shared text-codec primitives: character classes, decimal rendering and
//! parsing, string escaping, and the handful of standard-library bridges
//! between `String` and `Vec<char>`.
//!
//! Both the JSON codec for remote-control messages and the TOML codec for
//! configurations build on the functions here.

use vstd::prelude::*;

verus! {

// ---------------------------------------------------------------------------
// Standard-library bridges
// ---------------------------------------------------------------------------

/// Relies on `str::chars` collected into a `Vec`: the characters of a
/// string slice, in order, are exactly its view.
#[verifier::external_body]
pub fn chars_of(s: &str) -> (r: Vec<char>)
    ensures
        r@ == s@,
{
    s.chars().collect()
}

/// Relies on `String: FromIterator<char>`: collecting characters yields the
/// string with exactly those characters, in order.
#[verifier::external_body]
pub fn string_from_chars(v: &Vec<char>) -> (r: String)
    ensures
        r@ == v@,
{
    v.iter().collect()
}

/// Relies on `char::from_u32`: `Some` exactly for Unicode scalar values
/// (not a surrogate, at most 0x10FFFF), and the returned character has the
/// given scalar value.
#[verifier::external_body]
pub fn char_from_u32(v: u32) -> (r: Option<char>)
    ensures
        r is Some <==> (v < 0xD800 || (0xE000 <= v && v <= 0x10FFFF)),
        r matches Some(c) ==> c as u32 == v,
{
    char::from_u32(v)
}

// ---------------------------------------------------------------------------
// Character classes
// ---------------------------------------------------------------------------

/// JSON/TOML insignificant whitespace.
pub open spec fn is_ws(c: char) -> bool {
    c == ' ' || c == '\t' || c == '\n' || c == '\r'
}

/// A decimal digit.
pub open spec fn is_digit(c: char) -> bool {
    ('0' as u32) <= (c as u32) && (c as u32) <= ('9' as u32)
}

/// Numeric value of a decimal digit.
pub open spec fn digit_val(c: char) -> nat {
    ((c as u32) - ('0' as u32)) as nat
}

/// The character for a decimal digit value.
pub open spec fn digit_char(d: nat) -> char {
    if d == 0 {
        '0'
    } else if d == 1 {
        '1'
    } else if d == 2 {
        '2'
    } else if d == 3 {
        '3'
    } else if d == 4 {
        '4'
    } else if d == 5 {
        '5'
    } else if d == 6 {
        '6'
    } else if d == 7 {
        '7'
    } else if d == 8 {
        '8'
    } else {
        '9'
    }
}

/// The lowercase character for a hexadecimal digit value.
pub open spec fn hex_char(d: nat) -> char {
    if d < 10 {
        digit_char(d)
    } else if d == 10 {
        'a'
    } else if d == 11 {
        'b'
    } else if d == 12 {
        'c'
    } else if d == 13 {
        'd'
    } else if d == 14 {
        'e'
    } else {
        'f'
    }
}

/// Value of a lowercase or uppercase hexadecimal digit, if it is one.
pub open spec fn hex_val(c: char) -> Option<nat> {
    if is_digit(c) {
        Some(digit_val(c))
    } else if ('a' as u32) <= (c as u32) && (c as u32) <= ('f' as u32) {
        Some((10 + (c as u32) - ('a' as u32)) as nat)
    } else if ('A' as u32) <= (c as u32) && (c as u32) <= ('F' as u32) {
        Some((10 + (c as u32) - ('A' as u32)) as nat)
    } else {
        None
    }
}

proof fn lemma_digit_char_val(d: nat)
    requires
        d < 10,
    ensures
        is_digit(digit_char(d)),
        digit_val(digit_char(d)) == d,
{
}

proof fn lemma_hex_char_val(d: nat)
    requires
        d < 16,
    ensures
        hex_val(hex_char(d)) == Some(d),
        !is_ws(hex_char(d)),
{
}

// ---------------------------------------------------------------------------
// Decimal rendering
// ---------------------------------------------------------------------------

/// The decimal digits of `n`, most significant first, no leading zeros
/// (except for `n == 0`, rendered as "0").
pub open spec fn dec_digits(n: nat) -> Seq<char>
    decreases n,
{
    if n < 10 {
        seq![digit_char(n)]
    } else {
        dec_digits(n / 10).push(digit_char(n % 10))
    }
}

pub proof fn lemma_dec_digits_are_digits(n: nat)
    ensures
        dec_digits(n).len() >= 1,
        forall|k: int| 0 <= k < dec_digits(n).len() ==> is_digit(#[trigger] dec_digits(n)[k]),
    decreases n,
{
    if n < 10 {
        lemma_digit_char_val(n);
    } else {
        lemma_dec_digits_are_digits(n / 10);
        lemma_digit_char_val(n % 10);
    }
}

/// Append the decimal digit value of `d`.
pub fn digit_char_exec(d: u64) -> (c: char)
    requires
        d < 10,
    ensures
        c == digit_char(d as nat),
{
    if d == 0 {
        '0'
    } else if d == 1 {
        '1'
    } else if d == 2 {
        '2'
    } else if d == 3 {
        '3'
    } else if d == 4 {
        '4'
    } else if d == 5 {
        '5'
    } else if d == 6 {
        '6'
    } else if d == 7 {
        '7'
    } else if d == 8 {
        '8'
    } else {
        '9'
    }
}

/// Append the decimal rendering of `n` to `out`.
pub fn push_dec_u64(out: &mut Vec<char>, n: u64)
    ensures
        final(out)@ == old(out)@ + dec_digits(n as nat),
    decreases n,
{
    if n < 10 {
        let c = digit_char_exec(n);
        out.push(c);
        assert(out@ =~= old(out)@ + dec_digits(n as nat));
    } else {
        push_dec_u64(out, n / 10);
        let c = digit_char_exec(n % 10);
        out.push(c);
        assert(out@ =~= old(out)@ + dec_digits(n as nat));
    }
}

// ---------------------------------------------------------------------------
// Output helpers
// ---------------------------------------------------------------------------

/// Append every character of `s` to `out`.
pub fn push_chars(out: &mut Vec<char>, s: &Vec<char>)
    ensures
        final(out)@ == old(out)@ + s@,
{
    let mut i: usize = 0;
    while i < s.len()
        invariant
            i <= s.len(),
            out@ == old(out)@ + s@.take(i as int),
        decreases s.len() - i,
    {
        out.push(s[i]);
        i = i + 1;
        assert(out@ =~= old(out)@ + s@.take(i as int));
    }
    assert(out@ =~= old(out)@ + s@);
}

/// Append every character of the literal `s` to `out`.
pub fn push_lit(out: &mut Vec<char>, s: &str)
    ensures
        final(out)@ == old(out)@ + s@,
{
    let v = chars_of(s);
    push_chars(out, &v);
}

// ---------------------------------------------------------------------------
// Input positions
// ---------------------------------------------------------------------------

/// The text `t` occurs in `s` starting at position `i`.
pub open spec fn at(s: Seq<char>, i: int, t: Seq<char>) -> bool {
    0 <= i && i + t.len() <= s.len() && s.subrange(i, i + t.len()) == t
}

pub proof fn lemma_at_concat(s: Seq<char>, i: int, a: Seq<char>, b: Seq<char>)
    ensures
        at(s, i, a + b) <==> (at(s, i, a) && at(s, i + a.len(), b)),
{
    if at(s, i, a + b) {
        assert forall|k: int| 0 <= k < a.len() implies s[i + k] == a[k] by {
            assert(s.subrange(i, i + (a + b).len())[k] == (a + b)[k]);
        }
        assert forall|k: int| 0 <= k < b.len() implies s[i + a.len() + k] == b[k] by {
            assert(s.subrange(i, i + (a + b).len())[a.len() + k] == (a + b)[a.len() + k]);
        }
        assert(s.subrange(i, i + a.len()) =~= a);
        assert(s.subrange(i + a.len(), i + a.len() + b.len()) =~= b);
    }
    if at(s, i, a) && at(s, i + a.len(), b) {
        assert(s.subrange(i, i + a.len() + b.len()) =~= a + b);
    }
}

pub proof fn lemma_at_index(s: Seq<char>, i: int, t: Seq<char>, k: int)
    requires
        at(s, i, t),
        0 <= k < t.len(),
    ensures
        s[i + k] == t[k],
{
    assert(s.subrange(i, i + t.len())[k] == t[k]);
}

// ---------------------------------------------------------------------------
// Whitespace
// ---------------------------------------------------------------------------

/// First position at or after `i` that does not hold whitespace.
pub open spec fn spec_skip_ws(s: Seq<char>, i: int) -> int
    decreases s.len() - i,
{
    if 0 <= i < s.len() && is_ws(s[i]) {
        spec_skip_ws(s, i + 1)
    } else {
        i
    }
}

pub proof fn lemma_skip_ws_bounds(s: Seq<char>, i: int)
    requires
        0 <= i <= s.len(),
    ensures
        i <= spec_skip_ws(s, i) <= s.len(),
    decreases s.len() - i,
{
    if i < s.len() && is_ws(s[i]) {
        lemma_skip_ws_bounds(s, i + 1);
    }
}

/// Skip insignificant whitespace.
pub fn skip_ws(s: &Vec<char>, i: usize) -> (r: usize)
    requires
        i <= s@.len(),
    ensures
        r == spec_skip_ws(s@, i as int),
        i <= r <= s@.len(),
{
    proof {
        lemma_skip_ws_bounds(s@, i as int);
    }
    let mut k: usize = i;
    while k < s.len() && (s[k] == ' ' || s[k] == '\t' || s[k] == '\n' || s[k] == '\r')
        invariant
            i <= k <= s@.len(),
            spec_skip_ws(s@, i as int) == spec_skip_ws(s@, k as int),
        decreases s@.len() - k,
    {
        k = k + 1;
    }
    k
}

/// The characters of `t` against literal text at a position: `Some` exactly
/// when the literal occurs there.
pub fn match_lit(s: &Vec<char>, i: usize, lit: &str) -> (r: Option<usize>)
    requires
        i <= s@.len(),
    ensures
        r matches Some(j) ==> at(s@, i as int, lit@) && j == i + lit@.len(),
        r is None ==> !at(s@, i as int, lit@),
{
    let t = chars_of(lit);
    if t.len() > s.len() - i {
        assert(!at(s@, i as int, lit@));
        return None;
    }
    let slen: usize = s.len();
    let mut k: usize = 0;
    while k < t.len()
        invariant
            0 <= k <= t@.len(),
            i + t@.len() <= slen,
            slen == s@.len(),
            t@ == lit@,
            forall|m: int| 0 <= m < k ==> s@[i + m] == t@[m],
        decreases t@.len() - k,
    {
        if s[i + k] != t[k] {
            assert(!at(s@, i as int, lit@)) by {
                if at(s@, i as int, lit@) {
                    lemma_at_index(s@, i as int, lit@, k as int);
                }
            }
            return None;
        }
        k = k + 1;
    }
    assert(s@.subrange(i as int, i + lit@.len()) =~= lit@);
    Some(i + t.len())
}

// ---------------------------------------------------------------------------
// Decimal parsing
// ---------------------------------------------------------------------------

/// First position at or after `i` that does not hold a decimal digit.
pub open spec fn digits_end(s: Seq<char>, i: int) -> int
    decreases s.len() - i,
{
    if 0 <= i < s.len() && is_digit(s[i]) {
        digits_end(s, i + 1)
    } else {
        i
    }
}

/// Value of the decimal digits `s[i..j]`.
pub open spec fn dec_val_upto(s: Seq<char>, i: int, j: int) -> nat
    decreases j - i,
{
    if i < j {
        dec_val_upto(s, i, j - 1) * 10 + digit_val(s[j - 1])
    } else {
        0
    }
}

/// Parse an unsigned decimal number: the maximal run of digits at `i`.
pub open spec fn spec_parse_u64(s: Seq<char>, i: int) -> Option<(u64, int)> {
    let j = digits_end(s, i);
    if i < j && dec_val_upto(s, i, j) <= u64::MAX {
        Some(((dec_val_upto(s, i, j) as u64), j))
    } else {
        None
    }
}

pub proof fn lemma_digits_end_bounds(s: Seq<char>, i: int)
    requires
        0 <= i <= s.len(),
    ensures
        i <= digits_end(s, i) <= s.len(),
        forall|k: int| i <= k < digits_end(s, i) ==> is_digit(s[k]),
        digits_end(s, i) == s.len() || !is_digit(s[digits_end(s, i)]),
    decreases s.len() - i,
{
    if i < s.len() && is_digit(s[i]) {
        lemma_digits_end_bounds(s, i + 1);
    }
}

proof fn lemma_digits_end_range(s: Seq<char>, i: int, j: int)
    requires
        0 <= i <= j <= s.len(),
        forall|k: int| i <= k < j ==> is_digit(s[k]),
        j == s.len() || !is_digit(s[j]),
    ensures
        digits_end(s, i) == j,
    decreases j - i,
{
    if i < j {
        lemma_digits_end_range(s, i + 1, j);
    }
}

proof fn lemma_dec_val_of_digits(s: Seq<char>, i: int, n: nat)
    requires
        at(s, i, dec_digits(n)),
    ensures
        dec_val_upto(s, i, i + dec_digits(n).len()) == n,
    decreases n,
{
    lemma_dec_digits_are_digits(n);
    if n < 10 {
        lemma_at_index(s, i, dec_digits(n), 0);
        lemma_digit_char_val(n);
        assert(dec_val_upto(s, i, i) == 0);
        assert(dec_val_upto(s, i, i + 1) == dec_val_upto(s, i, i) * 10 + digit_val(s[i]));
    } else {
        let hi = dec_digits(n / 10);
        let full = dec_digits(n);
        assert(full =~= hi + seq![digit_char(n % 10)]);
        lemma_at_concat(s, i, hi, seq![digit_char(n % 10)]);
        lemma_at_index(s, i + hi.len(), seq![digit_char(n % 10)], 0);
        lemma_dec_val_of_digits(s, i, n / 10);
        lemma_digit_char_val(n % 10);
        vstd::arithmetic::div_mod::lemma_fundamental_div_mod(n as int, 10);
        assert(dec_val_upto(s, i, i + hi.len()) == n / 10);
        assert(s[i + hi.len()] == digit_char(n % 10));
        assert(full.len() == hi.len() + 1);
        assert(dec_val_upto(s, i, i + full.len()) == dec_val_upto(s, i, i + hi.len()) * 10
            + digit_val(s[i + hi.len()]));
        assert(n / 10 * 10 + n % 10 == n);
    }
}

/// Parsing recovers what the decimal renderer wrote, when the digits are
/// followed by a non-digit or the end of input.
pub proof fn lemma_parse_dec_digits(s: Seq<char>, i: int, n: u64)
    requires
        at(s, i, dec_digits(n as nat)),
        i + dec_digits(n as nat).len() == s.len() || !is_digit(
            s[i + dec_digits(n as nat).len()],
        ),
    ensures
        spec_parse_u64(s, i) == Some((n, i + dec_digits(n as nat).len())),
{
    let m = n as nat;
    lemma_dec_digits_are_digits(m);
    assert forall|k: int| i <= k < i + dec_digits(m).len() implies is_digit(s[k]) by {
        lemma_at_index(s, i, dec_digits(m), k - i);
    }
    lemma_digits_end_range(s, i, i + dec_digits(m).len());
    lemma_dec_val_of_digits(s, i, m);
}

proof fn lemma_dec_val_monotone(s: Seq<char>, i: int, j: int, j2: int)
    requires
        i <= j <= j2,
    ensures
        dec_val_upto(s, i, j) <= dec_val_upto(s, i, j2),
    decreases j2 - j,
{
    if j < j2 {
        lemma_dec_val_monotone(s, i, j, j2 - 1);
        assert(dec_val_upto(s, i, j2 - 1) <= dec_val_upto(s, i, j2 - 1) * 10);
    }
}

/// Whether a character is a decimal digit.
pub fn char_is_digit(c: char) -> (r: bool)
    ensures
        r == is_digit(c),
{
    ('0' as u32) <= (c as u32) && (c as u32) <= ('9' as u32)
}

/// Parse an unsigned 64-bit decimal number.
pub fn parse_u64(s: &Vec<char>, i: usize) -> (r: Option<(u64, usize)>)
    requires
        i <= s@.len(),
    ensures
        r matches Some(p) ==> spec_parse_u64(s@, i as int) == Some((p.0, p.1 as int)) && i < p.1
            <= s@.len(),
        r is None ==> spec_parse_u64(s@, i as int) is None,
{
    proof {
        lemma_digits_end_bounds(s@, i as int);
    }
    let ghost j = digits_end(s@, i as int);
    let slen: usize = s.len();
    let mut k: usize = i;
    let mut acc: u64 = 0;
    let mut overflow: bool = false;
    while k < slen && char_is_digit(s[k])
        invariant
            i <= k <= slen,
            slen == s@.len(),
            j == digits_end(s@, i as int),
            i <= j <= s@.len(),
            forall|m: int| i <= m < j ==> is_digit(s@[m]),
            j == s@.len() || !is_digit(s@[j]),
            k <= j,
            forall|m: int| i <= m < k ==> is_digit(s@[m]),
            !overflow ==> acc == dec_val_upto(s@, i as int, k as int),
            overflow ==> dec_val_upto(s@, i as int, k as int) > u64::MAX,
        decreases slen - k,
    {
        let c = s[k];
        let d: u64 = ((c as u32) - ('0' as u32)) as u64;
        proof {
            assert(is_digit(s@[k as int]));
            if k == j {
                assert(false);
            }
        }
        if !overflow {
            if acc > (u64::MAX - d) / 10 {
                proof {
                    vstd::arithmetic::div_mod::lemma_fundamental_div_mod(
                        (u64::MAX - d) as int,
                        10,
                    );
                    assert(acc * 10 + d > u64::MAX) by (nonlinear_arith)
                        requires
                            acc > ((u64::MAX - d) as u64 / 10),
                            d < 10,
                    ;
                }
                overflow = true;
            } else {
                proof {
                    vstd::arithmetic::div_mod::lemma_fundamental_div_mod(
                        (u64::MAX - d) as int,
                        10,
                    );
                    assert(acc * 10 + d <= u64::MAX) by (nonlinear_arith)
                        requires
                            acc <= ((u64::MAX - d) as u64 / 10),
                            d < 10,
                    ;
                }
                acc = acc * 10 + d;
            }
        } else {
            proof {
                lemma_dec_val_monotone(s@, i as int, k as int, k + 1);
                assert(dec_val_upto(s@, i as int, k + 1) >= dec_val_upto(s@, i as int, k as int));
            }
        }
        k = k + 1;
    }
    proof {
        lemma_digits_end_range(s@, i as int, k as int);
    }
    if k == i {
        None
    } else if overflow {
        proof {
            lemma_dec_val_monotone(s@, i as int, k as int, j);
        }
        None
    } else {
        Some((acc, k))
    }
}

// ---------------------------------------------------------------------------
// String escaping
// ---------------------------------------------------------------------------

/// Escape one character for a double-quoted string: quote and backslash get
/// a backslash escape, control characters a four-digit hexadecimal escape,
/// anything else stands for itself.
pub open spec fn esc_char(c: char) -> Seq<char> {
    if c == '"' {
        seq!['\\', '"']
    } else if c == '\\' {
        seq!['\\', '\\']
    } else if (c as u32) < 0x20 {
        seq!['\\', 'u', '0', '0', hex_char(((c as u32) / 16) as nat), hex_char(
            ((c as u32) % 16) as nat,
        )]
    } else {
        seq![c]
    }
}

/// Escape a whole string body.
pub open spec fn esc_seq(s: Seq<char>) -> Seq<char>
    decreases s.len(),
{
    if s.len() == 0 {
        Seq::<char>::empty()
    } else {
        esc_char(s[0]) + esc_seq(s.drop_first())
    }
}

/// A double-quoted, escaped string.
pub open spec fn quoted(s: Seq<char>) -> Seq<char> {
    seq!['"'] + esc_seq(s) + seq!['"']
}

pub proof fn lemma_esc_seq_snoc(s: Seq<char>, c: char)
    ensures
        esc_seq(s.push(c)) == esc_seq(s) + esc_char(c),
    decreases s.len(),
{
    if s.len() == 0 {
        assert(s.push(c).drop_first() =~= Seq::<char>::empty());
        assert(s.push(c)[0] == c);
        assert(esc_seq(Seq::<char>::empty()) =~= Seq::<char>::empty());
        assert(esc_seq(s.push(c)) =~= esc_char(c) + esc_seq(Seq::<char>::empty()));
        assert(esc_char(c) + Seq::<char>::empty() =~= esc_char(c));
        assert(esc_seq(s) + esc_char(c) =~= esc_char(c));
    } else {
        assert(s.push(c).drop_first() =~= s.drop_first().push(c));
        lemma_esc_seq_snoc(s.drop_first(), c);
        assert(esc_seq(s.push(c)) == esc_char(s[0]) + (esc_seq(s.drop_first()) + esc_char(c)));
        assert(esc_char(s[0]) + (esc_seq(s.drop_first()) + esc_char(c)) =~= (esc_char(s[0])
            + esc_seq(s.drop_first())) + esc_char(c));
    }
}

/// The lowercase character for a hexadecimal digit value.
pub fn hex_char_exec(d: u32) -> (c: char)
    requires
        d < 16,
    ensures
        c == hex_char(d as nat),
{
    if d < 10 {
        digit_char_exec(d as u64)
    } else if d == 10 {
        'a'
    } else if d == 11 {
        'b'
    } else if d == 12 {
        'c'
    } else if d == 13 {
        'd'
    } else if d == 14 {
        'e'
    } else {
        'f'
    }
}

/// Append the escaped body of `s` to `out`.
pub fn push_escaped(out: &mut Vec<char>, s: &Vec<char>)
    ensures
        final(out)@ == old(out)@ + esc_seq(s@),
{
    let mut i: usize = 0;
    while i < s.len()
        invariant
            i <= s@.len(),
            out@ == old(out)@ + esc_seq(s@.take(i as int)),
        decreases s@.len() - i,
    {
        let c = s[i];
        if c == '"' {
            out.push('\\');
            out.push('"');
        } else if c == '\\' {
            out.push('\\');
            out.push('\\');
        } else if (c as u32) < 0x20 {
            out.push('\\');
            out.push('u');
            out.push('0');
            out.push('0');
            let h = hex_char_exec((c as u32) / 16);
            out.push(h);
            let l = hex_char_exec((c as u32) % 16);
            out.push(l);
        } else {
            out.push(c);
        }
        proof {
            assert(s@.take(i + 1) =~= s@.take(i as int).push(s@[i as int]));
            lemma_esc_seq_snoc(s@.take(i as int), s@[i as int]);
            assert(out@ =~= old(out)@ + esc_seq(s@.take(i + 1)));
        }
        i = i + 1;
    }
    assert(s@.take(s@.len() as int) =~= s@);
}

/// Append `s` as a double-quoted, escaped string.
pub fn push_quoted(out: &mut Vec<char>, s: &Vec<char>)
    ensures
        final(out)@ == old(out)@ + quoted(s@),
{
    out.push('"');
    push_escaped(out, s);
    out.push('"');
    assert(final(out)@ =~= old(out)@ + quoted(s@));
}

/// Append the string slice `s` as a double-quoted, escaped string.
pub fn push_quoted_str(out: &mut Vec<char>, s: &str)
    ensures
        final(out)@ == old(out)@ + quoted(s@),
{
    let v = chars_of(s);
    push_quoted(out, &v);
}

// ---------------------------------------------------------------------------
// String parsing
// ---------------------------------------------------------------------------

/// Parse one backslash escape, positioned on the backslash.
pub open spec fn spec_parse_esc(s: Seq<char>, i: int) -> Option<(char, int)> {
    if i + 2 > s.len() || i < 0 {
        None
    } else {
        let c = s[i + 1];
        if c == '"' {
            Some(('"', i + 2))
        } else if c == '\\' {
            Some(('\\', i + 2))
        } else if c == '/' {
            Some(('/', i + 2))
        } else if c == 'n' {
            Some(('\n', i + 2))
        } else if c == 't' {
            Some(('\t', i + 2))
        } else if c == 'r' {
            Some(('\r', i + 2))
        } else if c == 'b' {
            Some(('\u{8}', i + 2))
        } else if c == 'f' {
            Some(('\u{c}', i + 2))
        } else if c == 'u' {
            if i + 6 > s.len() {
                None
            } else {
                match (hex_val(s[i + 2]), hex_val(s[i + 3]), hex_val(s[i + 4]), hex_val(
                    s[i + 5],
                )) {
                    (Some(a), Some(b), Some(x), Some(d)) => {
                        let v = a * 4096 + b * 256 + x * 16 + d;
                        if v < 0xD800 {
                            Some((((v as u32) as char), i + 6))
                        } else {
                            None
                        }
                    },
                    _ => None,
                }
            }
        } else {
            None
        }
    }
}

/// Parse a string body up to and including the closing quote, positioned
/// just after the opening quote.  Returns the unescaped content and the
/// position after the closing quote.
pub open spec fn spec_parse_qstr(s: Seq<char>, i: int) -> Option<(Seq<char>, int)>
    decreases s.len() - i,
{
    if !(0 <= i < s.len()) {
        None
    } else if s[i] == '"' {
        Some((Seq::<char>::empty(), i + 1))
    } else if s[i] == '\\' {
        match spec_parse_esc(s, i) {
            Some((c, i2)) => if i2 <= i || i2 > s.len() {
                None
            } else {
                match spec_parse_qstr(s, i2) {
                    Some((rest, j)) => Some((seq![c] + rest, j)),
                    None => None,
                }
            },
            None => None,
        }
    } else {
        match spec_parse_qstr(s, i + 1) {
            Some((rest, j)) => Some((seq![s[i]] + rest, j)),
            None => None,
        }
    }
}

/// Parsing recovers what the escaper wrote.
pub proof fn lemma_parse_qstr(s: Seq<char>, i: int, content: Seq<char>)
    requires
        at(s, i, esc_seq(content) + seq!['"']),
    ensures
        spec_parse_qstr(s, i) == Some((content, i + esc_seq(content).len() + 1)),
    decreases content.len(),
{
    broadcast use vstd::utf8::char_u32_cast;

    lemma_at_concat(s, i, esc_seq(content), seq!['"']);
    lemma_at_index(s, i + esc_seq(content).len(), seq!['"'], 0);
    if content.len() == 0 {
        assert(s[i] == '"');
    } else {
        let c0 = content[0];
        let rest = content.drop_first();
        assert(esc_seq(content) == esc_char(c0) + esc_seq(rest));
        assert((esc_char(c0) + esc_seq(rest)) + seq!['"'] =~= esc_char(c0) + (esc_seq(rest)
            + seq!['"']));
        lemma_at_concat(s, i, esc_char(c0), esc_seq(rest) + seq!['"']);
        let e = esc_char(c0);
        let i2 = i + e.len();
        lemma_parse_qstr(s, i2, rest);
        assert forall|k: int| 0 <= k < e.len() implies s[i + k] == e[k] by {
            lemma_at_index(s, i, e, k);
        }
        if c0 == '"' {
            assert(spec_parse_esc(s, i) == Some(('"', i + 2)));
        } else if c0 == '\\' {
            assert(spec_parse_esc(s, i) == Some(('\\', i + 2)));
        } else if (c0 as u32) < 0x20 {
            let v = c0 as u32;
            lemma_hex_char_val(((v / 16) as nat));
            lemma_hex_char_val(((v % 16) as nat));
            assert(hex_val('0') == Some(0nat));
            assert(s[i + 1] == 'u');
            assert(hex_val(s[i + 2]) == Some(0nat));
            assert(hex_val(s[i + 3]) == Some(0nat));
            assert(hex_val(s[i + 4]) == Some((v / 16) as nat));
            assert(hex_val(s[i + 5]) == Some((v % 16) as nat));
            assert(((v / 16) as nat) * 16 + ((v % 16) as nat) == v as nat) by {
                vstd::arithmetic::div_mod::lemma_fundamental_div_mod(v as int, 16);
            }
            assert(spec_parse_esc(s, i) == Some((((v as u32) as char), i + 6)));
            vstd::utf8::char_u32_cast(c0, v);
            assert(((v as u32) as char) == c0);
        } else {
            lemma_at_index(s, i, e, 0);
            assert(s[i] == c0);
            assert(s[i] != '"' && s[i] != '\\');
            assert(seq![c0] + rest =~= content);
        }
        assert(seq![c0] + rest =~= content);
    }
}

/// Parse one backslash escape.
fn parse_esc(s: &Vec<char>, i: usize) -> (r: Option<(char, usize)>)
    requires
        i <= s@.len(),
    ensures
        r matches Some(p) ==> spec_parse_esc(s@, i as int) == Some((p.0, p.1 as int)) && i < p.1
            <= s@.len(),
        r is None ==> spec_parse_esc(s@, i as int) is None,
{
    if s.len() - i < 2 {
        return None;
    }
    let c = s[i + 1];
    if c == '"' {
        Some(('"', i + 2))
    } else if c == '\\' {
        Some(('\\', i + 2))
    } else if c == '/' {
        Some(('/', i + 2))
    } else if c == 'n' {
        Some(('\n', i + 2))
    } else if c == 't' {
        Some(('\t', i + 2))
    } else if c == 'r' {
        Some(('\r', i + 2))
    } else if c == 'b' {
        Some(('\u{8}', i + 2))
    } else if c == 'f' {
        Some(('\u{c}', i + 2))
    } else if c == 'u' {
        if s.len() - i < 6 {
            return None;
        }
        let a = hex_val_exec(s[i + 2]);
        let b = hex_val_exec(s[i + 3]);
        let x = hex_val_exec(s[i + 4]);
        let d = hex_val_exec(s[i + 5]);
        match (a, b, x, d) {
            (Some(a), Some(b), Some(x), Some(d)) => {
                let v: u32 = a * 4096 + b * 256 + x * 16 + d;
                if v < 0xD800 {
                    match char_from_u32(v) {
                        Some(ch) => {
                            proof {
                                vstd::utf8::char_u32_cast(ch, v);
                            }
                            Some((ch, i + 6))
                        },
                        None => None,
                    }
                } else {
                    None
                }
            },
            _ => None,
        }
    } else {
        None
    }
}

/// Value of a hexadecimal digit character, if it is one.
fn hex_val_exec(c: char) -> (r: Option<u32>)
    ensures
        r matches Some(v) ==> hex_val(c) == Some(v as nat) && v < 16,
        r is None ==> hex_val(c) is None,
{
    let u = c as u32;
    if ('0' as u32) <= u && u <= ('9' as u32) {
        Some(u - ('0' as u32))
    } else if ('a' as u32) <= u && u <= ('f' as u32) {
        Some(10 + u - ('a' as u32))
    } else if ('A' as u32) <= u && u <= ('F' as u32) {
        Some(10 + u - ('A' as u32))
    } else {
        None
    }
}

/// Parse a string body up to and including the closing quote.
pub fn parse_qstr(s: &Vec<char>, i: usize) -> (r: Option<(Vec<char>, usize)>)
    requires
        i <= s@.len(),
    ensures
        r matches Some(p) ==> spec_parse_qstr(s@, i as int) == Some((p.0@, p.1 as int)) && i < p.1
            <= s@.len(),
        r is None ==> spec_parse_qstr(s@, i as int) is None,
{
    let slen: usize = s.len();
    let mut k: usize = i;
    let mut content: Vec<char> = Vec::new();
    loop
        invariant
            i <= k <= slen,
            slen == s@.len(),
            forall|rest: Seq<char>, j: int|
                spec_parse_qstr(s@, k as int) == Some((rest, j)) ==> spec_parse_qstr(
                    s@,
                    i as int,
                ) == Some((content@ + rest, j)),
            spec_parse_qstr(s@, k as int) is None ==> spec_parse_qstr(s@, i as int) is None,
        decreases slen - k,
    {
        if k == slen {
            return None;
        }
        let c = s[k];
        if c == '"' {
            proof {
                assert(spec_parse_qstr(s@, k as int) == Some((Seq::<char>::empty(), k + 1)));
                assert(content@ + Seq::<char>::empty() =~= content@);
            }
            return Some((content, k + 1));
        } else if c == '\\' {
            match parse_esc(s, k) {
                Some((ch, k2)) => {
                    proof {
                        match spec_parse_qstr(s@, k2 as int) {
                            Some((rest, j)) => {
                                assert(spec_parse_qstr(s@, k as int) == Some(
                                    (seq![ch] + rest, j),
                                ));
                                assert(content@.push(ch) + rest =~= content@ + (seq![ch]
                                    + rest));
                            },
                            None => {},
                        }
                    }
                    content.push(ch);
                    k = k2;
                },
                None => {
                    return None;
                },
            }
        } else {
            proof {
                match spec_parse_qstr(s@, k + 1) {
                    Some((rest, j)) => {
                        assert(spec_parse_qstr(s@, k as int) == Some((seq![c] + rest, j)));
                        assert(content@.push(c) + rest =~= content@ + (seq![c] + rest));
                    },
                    None => {},
                }
            }
            content.push(c);
            k = k + 1;
        }
    }
}

/// Whether a character vector holds exactly the literal text.
pub fn text_is(a: &Vec<char>, lit: &str) -> (r: bool)
    ensures
        r == (a@ == lit@),
{
    let t = chars_of(lit);
    if a.len() != t.len() {
        return false;
    }
    let mut k: usize = 0;
    while k < t.len()
        invariant
            0 <= k <= t@.len(),
            a@.len() == t@.len(),
            t@ == lit@,
            forall|m: int| 0 <= m < k ==> a@[m] == t@[m],
        decreases t@.len() - k,
    {
        if a[k] != t[k] {
            return false;
        }
        k = k + 1;
    }
    assert(a@ =~= lit@);
    true
}

} // verus!
