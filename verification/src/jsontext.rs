//! Character-level building blocks of the wire envelopes: JSON string
//! escaping and unescaping, decimal numerals, and whitespace — each as a
//! spec-level definition, an executable counterpart proved against it, and
//! the inversion lemmas the codec's round trip rests on.

use vstd::prelude::*;

verus! {

// ---------------------------------------------------------------------------
// character classes

/// JSON insignificant whitespace.
pub open spec fn is_json_ws(c: char) -> bool {
    c == ' ' || c == '\t' || c == '\n' || c == '\r'
}

/// A decimal digit.
pub open spec fn is_digit(c: char) -> bool {
    '0' as int <= c as int && c as int <= '9' as int
}

/// Value of a decimal digit.
pub open spec fn digit_val(c: char) -> int {
    c as int - '0' as int
}

/// A hexadecimal digit, either case.
pub open spec fn is_hex_digit(c: char) -> bool {
    ||| is_digit(c)
    ||| ('a' as int <= c as int && c as int <= 'f' as int)
    ||| ('A' as int <= c as int && c as int <= 'F' as int)
}

/// Value of a hexadecimal digit.
pub open spec fn hex_val(c: char) -> int {
    if is_digit(c) {
        digit_val(c)
    } else if 'a' as int <= c as int && c as int <= 'f' as int {
        c as int - 'a' as int + 10
    } else {
        c as int - 'A' as int + 10
    }
}

/// A Unicode scalar value: what a `char` may hold.
pub open spec fn is_scalar_value(v: int) -> bool {
    (0 <= v && v < 0xD800) || (0xE000 <= v && v <= 0x10FFFF)
}

/// The decimal digit character for `d` in `0..10`.
pub open spec fn digit_char(d: int) -> char {
    (('0' as int) + d) as char
}

/// The lower-case hexadecimal digit character for `d` in `0..16`.
pub open spec fn hex_char(d: int) -> char {
    if d < 10 {
        (('0' as int) + d) as char
    } else {
        (('a' as int) + d - 10) as char
    }
}

// ---------------------------------------------------------------------------
// escaping and numerals (the encoding direction)

/// How one character appears inside an encoded JSON string: itself if it
/// needs no escape; the short escape for the quote, the backslash and the
/// named control characters; `\u00XX` for the remaining control characters.
pub open spec fn escape_char(c: char) -> Seq<char> {
    if c == '"' {
        seq!['\\', '"']
    } else if c == '\\' {
        seq!['\\', '\\']
    } else if c == '\u{8}' {
        seq!['\\', 'b']
    } else if c == '\u{c}' {
        seq!['\\', 'f']
    } else if c == '\n' {
        seq!['\\', 'n']
    } else if c == '\r' {
        seq!['\\', 'r']
    } else if c == '\t' {
        seq!['\\', 't']
    } else if (c as int) < 0x20 {
        seq!['\\', 'u', '0', '0', hex_char(c as int / 16), hex_char(c as int % 16)]
    } else {
        seq![c]
    }
}

/// The body of an encoded JSON string: each character escaped.
pub open spec fn escape_seq(s: Seq<char>) -> Seq<char>
    decreases s.len(),
{
    if s.len() == 0 {
        Seq::empty()
    } else {
        escape_char(s[0]) + escape_seq(s.skip(1))
    }
}

/// A whole encoded JSON string: the escaped body between quotes.
pub open spec fn quote(s: Seq<char>) -> Seq<char> {
    seq!['"'] + escape_seq(s) + seq!['"']
}

/// The decimal numeral of a non-negative integer, most significant digit
/// first, without leading zeros.
pub open spec fn dec_str(n: int) -> Seq<char>
    decreases n,
        when n >= 0
{
    if n < 10 {
        seq![digit_char(n)]
    } else {
        dec_str(n / 10) + seq![digit_char(n % 10)]
    }
}

// ---------------------------------------------------------------------------
// parsing (the decoding direction), on the remaining input

/// The input with its leading JSON whitespace removed.
pub open spec fn spec_skip_ws(s: Seq<char>) -> Seq<char>
    decreases s.len(),
{
    if s.len() > 0 && is_json_ws(s[0]) {
        spec_skip_ws(s.skip(1))
    } else {
        s
    }
}

/// The character a short escape code stands for, if it is one.
pub open spec fn unescape_code(e: char) -> Option<char> {
    if e == '"' {
        Some('"')
    } else if e == '\\' {
        Some('\\')
    } else if e == '/' {
        Some('/')
    } else if e == 'b' {
        Some('\u{8}')
    } else if e == 'f' {
        Some('\u{c}')
    } else if e == 'n' {
        Some('\n')
    } else if e == 'r' {
        Some('\r')
    } else if e == 't' {
        Some('\t')
    } else {
        None
    }
}

/// Parse the body of a JSON string after its opening quote, up to and over
/// the closing quote: the decoded characters and the remaining input.
/// Unescaped control characters, bad escapes, `\u` escapes that do not name
/// a scalar value, and a missing closing quote all fail.
pub open spec fn spec_parse_string_body(s: Seq<char>) -> Option<(Seq<char>, Seq<char>)>
    decreases s.len(),
{
    if s.len() == 0 {
        None
    } else if s[0] == '"' {
        Some((Seq::empty(), s.skip(1)))
    } else if s[0] == '\\' {
        if s.len() < 2 {
            None
        } else if s[1] == 'u' {
            if s.len() < 6 {
                None
            } else if is_hex_digit(s[2]) && is_hex_digit(s[3]) && is_hex_digit(s[4])
                && is_hex_digit(s[5]) {
                let v = ((hex_val(s[2]) * 16 + hex_val(s[3])) * 16 + hex_val(s[4])) * 16 + hex_val(
                    s[5],
                );
                if is_scalar_value(v) {
                    match spec_parse_string_body(s.skip(6)) {
                        None => None,
                        Some((t, r)) => Some((seq![v as char] + t, r)),
                    }
                } else {
                    None
                }
            } else {
                None
            }
        } else {
            match unescape_code(s[1]) {
                None => None,
                Some(c) => match spec_parse_string_body(s.skip(2)) {
                    None => None,
                    Some((t, r)) => Some((seq![c] + t, r)),
                },
            }
        }
    } else if (s[0] as int) < 0x20 {
        None
    } else {
        match spec_parse_string_body(s.skip(1)) {
            None => None,
            Some((t, r)) => Some((seq![s[0]] + t, r)),
        }
    }
}

/// Parse a whole JSON string, opening quote included.
pub open spec fn spec_parse_string(s: Seq<char>) -> Option<(Seq<char>, Seq<char>)> {
    if s.len() > 0 && s[0] == '"' {
        spec_parse_string_body(s.skip(1))
    } else {
        None
    }
}

/// Greatest number of digits a numeral may have: every accepted numeral
/// fits in a `u64`.
pub open spec fn max_numeral_digits() -> int {
    19
}

/// Accumulating numeral parse: `acc` is the value of the digits already
/// consumed, `cnt` how many there were. Fails if the digits run past
/// [`max_numeral_digits`].
pub open spec fn spec_parse_uint_rec(s: Seq<char>, acc: int, cnt: int) -> Option<(int, Seq<char>)>
    decreases s.len(),
{
    if s.len() > 0 && is_digit(s[0]) {
        if cnt >= max_numeral_digits() {
            None
        } else {
            spec_parse_uint_rec(s.skip(1), acc * 10 + digit_val(s[0]), cnt + 1)
        }
    } else {
        Some((acc, s))
    }
}

/// Parse a non-negative decimal numeral: its value and the remaining
/// input. At least one digit; at most [`max_numeral_digits`] of them.
pub open spec fn spec_parse_uint(s: Seq<char>) -> Option<(int, Seq<char>)> {
    if s.len() > 0 && is_digit(s[0]) {
        spec_parse_uint_rec(s, 0, 0)
    } else {
        None
    }
}

// ---------------------------------------------------------------------------
// facts about the two directions

/// A character that appears in an encoded string as itself.
pub open spec fn plain_char(c: char) -> bool {
    c != '"' && c != '\\' && (c as int) >= 0x20
}

/// Every `char` holds a Unicode scalar value.
pub proof fn lemma_char_bounds(c: char)
    ensures
        is_scalar_value(c as int),
        c as int == c as u32,
{
}

/// Characters with the same scalar value are the same character.
pub proof fn lemma_char_injective(c1: char, c2: char)
    requires
        c1 as int == c2 as int,
    ensures
        c1 == c2,
{
    lemma_char_bounds(c1);
    lemma_char_bounds(c2);
    vstd::utf8::char_u32_cast(c1, c1 as u32);
    vstd::utf8::char_u32_cast(c2, c2 as u32);
}

/// Skipping whitespace does nothing when none is there.
pub proof fn lemma_skip_ws_id(s: Seq<char>)
    requires
        s.len() == 0 || !is_json_ws(s[0]),
    ensures
        spec_skip_ws(s) == s,
{
}

/// A sequence of plain characters escapes to itself.
pub proof fn lemma_escape_plain(s: Seq<char>)
    requires
        forall|i: int| 0 <= i < s.len() ==> plain_char(s[i]),
    ensures
        escape_seq(s) == s,
    decreases s.len(),
{
    if s.len() == 0 {
        assert(escape_seq(s) =~= s);
    } else {
        lemma_escape_plain(s.skip(1));
        assert(escape_char(s[0]) =~= seq![s[0]]);
        assert(escape_seq(s) =~= s);
    }
}

/// `hex_char` yields a hexadecimal digit and `hex_val` inverts it.
pub proof fn lemma_hex_char_val(d: int)
    requires
        0 <= d < 16,
    ensures
        is_hex_digit(hex_char(d)),
        hex_val(hex_char(d)) == d,
{
}

/// `digit_char` yields a digit and `digit_val` inverts it.
pub proof fn lemma_digit_char_val(d: int)
    requires
        0 <= d < 10,
    ensures
        is_digit(digit_char(d)),
        digit_val(digit_char(d)) == d,
{
}

/// Unescaping inverts escaping: parsing an escaped body followed by the
/// closing quote yields the original characters and leaves the rest.
pub proof fn lemma_parse_string_body_round(c: Seq<char>, rest: Seq<char>)
    ensures
        spec_parse_string_body(escape_seq(c) + seq!['"'] + rest) == Some((c, rest)),
    decreases c.len(),
{
    let s = escape_seq(c) + seq!['"'] + rest;
    if c.len() == 0 {
        assert(escape_seq(c) =~= Seq::<char>::empty());
        assert(s[0] == '"');
        assert(s.skip(1) =~= rest);
    } else {
        let c0 = c[0];
        let ctail = c.skip(1);
        lemma_parse_string_body_round(ctail, rest);
        let e = escape_char(c0);
        let s2 = escape_seq(ctail) + seq!['"'] + rest;
        assert(s =~= e + s2);
        assert(seq![c0] + ctail =~= c);
        if c0 == '"' || c0 == '\\' || c0 == '\u{8}' || c0 == '\u{c}' || c0 == '\n' || c0 == '\r'
            || c0 == '\t' {
            assert(e.len() == 2 && e[0] == '\\');
            assert(s[0] == '\\' && s[1] == e[1]);
            assert(s[1] != 'u');
            assert(unescape_code(s[1]) == Some(c0));
            assert(s.skip(2) =~= s2);
        } else if (c0 as int) < 0x20 {
            let hi = c0 as int / 16;
            let lo = c0 as int % 16;
            lemma_char_bounds(c0);
            assert(0 <= (c0 as int) && (c0 as int) < 0x20);
            vstd::arithmetic::div_mod::lemma_fundamental_div_mod(c0 as int, 16);
            assert(0 <= hi < 2);
            assert(0 <= lo < 16);
            assert(e =~= seq!['\\', 'u', '0', '0', hex_char(hi), hex_char(lo)]);
            assert(s.len() >= 6);
            assert(s[0] == '\\' && s[1] == 'u' && s[2] == '0' && s[3] == '0' && s[4] == hex_char(hi)
                && s[5] == hex_char(lo));
            lemma_hex_char_val(hi);
            lemma_hex_char_val(lo);
            assert(is_hex_digit('0') && hex_val('0') == 0);
            let v = ((hex_val(s[2]) * 16 + hex_val(s[3])) * 16 + hex_val(s[4])) * 16 + hex_val(
                s[5],
            );
            assert(v == hi * 16 + lo);
            vstd::arithmetic::div_mod::lemma_fundamental_div_mod(c0 as int, 16);
            assert(v == c0 as int);
            assert(is_scalar_value(v));
            assert(v as char == c0);
            assert(s.skip(6) =~= s2);
        } else {
            assert(e =~= seq![c0]);
            assert(s[0] == c0);
            assert(s.skip(1) =~= s2);
        }
    }
}

/// Parsing a quoted, escaped string yields the original and leaves the rest.
pub proof fn lemma_parse_string_round(c: Seq<char>, rest: Seq<char>)
    ensures
        spec_parse_string(quote(c) + rest) == Some((c, rest)),
{
    let s = quote(c) + rest;
    assert(s[0] == '"');
    lemma_parse_string_body_round(c, rest);
    assert(s.skip(1) =~= escape_seq(c) + seq!['"'] + rest);
}

// ---------------------------------------------------------------------------
// numerals round-trip

/// Powers of ten.
pub open spec fn pow10(k: int) -> int
    decreases k,
        when k >= 0
{
    if k <= 0 {
        1
    } else {
        10 * pow10(k - 1)
    }
}

/// Value of a digit sequence, most significant first.
pub open spec fn digits_val(d: Seq<char>) -> int
    decreases d.len(),
{
    if d.len() == 0 {
        0
    } else {
        digits_val(d.drop_last()) * 10 + digit_val(d.last())
    }
}

/// Peeling the most significant digit off a numeral.
pub proof fn lemma_digits_val_first(d: Seq<char>)
    requires
        d.len() > 0,
    ensures
        digits_val(d) == digit_val(d[0]) * pow10(d.len() - 1) + digits_val(d.skip(1)),
    decreases d.len(),
{
    if d.len() == 1 {
        assert(d.drop_last().len() == 0);
        assert(d.skip(1).len() == 0);
        assert(d.last() == d[0]);
        assert(digits_val(d.drop_last()) == 0);
        assert(digits_val(d.skip(1)) == 0);
        assert(pow10(0) == 1);
        assert(digits_val(d) == digit_val(d[0]));
    } else {
        let dl = d.drop_last();
        lemma_digits_val_first(dl);
        assert(d.skip(1).drop_last() =~= dl.skip(1));
        assert(d.skip(1).last() == d.last());
        assert(d.skip(1).len() == d.len() - 1);
        assert(dl[0] == d[0]);
        let v0 = digit_val(d[0]);
        let p = pow10(dl.len() - 1);
        let x = digits_val(dl.skip(1));
        let y = digit_val(d.last());
        // definitions unrolled
        assert(digits_val(d) == digits_val(dl) * 10 + y);
        assert(digits_val(dl) == v0 * p + x);
        assert(digits_val(d.skip(1)) == x * 10 + y);
        assert((v0 * p + x) * 10 == v0 * (p * 10) + x * 10) by (nonlinear_arith);
        assert(p * 10 == pow10(d.len() - 1));
        assert(digits_val(d) == v0 * (p * 10) + (x * 10 + y));
    }
}

/// The numeral of `n` is all digits, has no more digits than the bound
/// `pow10` allows, and evaluates back to `n`.
pub proof fn lemma_dec_str_props(n: int, k: int)
    requires
        0 <= n,
        1 <= k,
        n < pow10(k),
    ensures
        dec_str(n).len() >= 1,
        dec_str(n).len() <= k,
        forall|i: int| 0 <= i < dec_str(n).len() ==> is_digit(#[trigger] dec_str(n)[i]),
        digits_val(dec_str(n)) == n,
    decreases n,
{
    if n < 10 {
        lemma_digit_char_val(n);
        assert(dec_str(n) =~= seq![digit_char(n)]);
        assert(dec_str(n).drop_last().len() == 0);
        assert(digits_val(dec_str(n).drop_last()) == 0);
        assert(dec_str(n).last() == digit_char(n));
        assert(digits_val(dec_str(n)) == digit_val(digit_char(n)));
    } else {
        let q = n / 10;
        let r = n % 10;
        vstd::arithmetic::div_mod::lemma_fundamental_div_mod(n, 10);
        assert(0 <= r < 10);
        assert(1 <= q < n);
        assert(q < pow10(k - 1)) by {
            assert(pow10(k) == 10 * pow10(k - 1));
            assert(n == 10 * q + r);
            if q >= pow10(k - 1) {
                let pk = pow10(k - 1);
                assert(q >= pk ==> 10 * q >= 10 * pk) by (nonlinear_arith);
                assert(false);
            }
        }
        assert(k - 1 >= 1) by {
            if k - 1 < 1 {
                assert(pow10(k) == 10);
                assert(n < 10);
            }
        }
        lemma_dec_str_props(q, k - 1);
        lemma_digit_char_val(r);
        let d = dec_str(n);
        assert(d == dec_str(q) + seq![digit_char(r)]);
        assert(d.drop_last() =~= dec_str(q));
        assert(d.last() == digit_char(r));
        assert(digits_val(d) == q * 10 + r);
    }
}

/// The accumulating numeral parse over appended digits.
proof fn lemma_parse_uint_rec_append(d: Seq<char>, rest: Seq<char>, acc: int, cnt: int)
    requires
        forall|i: int| 0 <= i < d.len() ==> is_digit(#[trigger] d[i]),
        cnt >= 0,
        cnt + d.len() <= max_numeral_digits(),
        rest.len() == 0 || !is_digit(rest[0]),
    ensures
        spec_parse_uint_rec(d + rest, acc, cnt) == Some(
            (acc * pow10(d.len() as int) + digits_val(d), rest),
        ),
    decreases d.len(),
{
    let s = d + rest;
    if d.len() == 0 {
        assert(s =~= rest);
        assert(acc * pow10(0) == acc) by (nonlinear_arith);
    } else {
        assert(s[0] == d[0]);
        assert(is_digit(s[0]));
        let v0 = digit_val(d[0]);
        let acc2 = acc * 10 + v0;
        lemma_parse_uint_rec_append(d.skip(1), rest, acc2, cnt + 1);
        assert(s.skip(1) =~= d.skip(1) + rest);
        lemma_digits_val_first(d);
        let l1 = d.len() - 1;
        let p = pow10(l1);
        let x = digits_val(d.skip(1));
        assert((acc * 10 + v0) * p + x == acc * (10 * p) + (v0 * p + x)) by (nonlinear_arith);
        assert(10 * p == pow10(d.len() as int));
        assert(digits_val(d) == v0 * p + x);
    }
}

/// Parsing the numeral of `n` yields `n` back and leaves the rest, as long
/// as the rest does not begin with a digit.
pub proof fn lemma_parse_uint_round(n: int, rest: Seq<char>)
    requires
        0 <= n,
        n < pow10(max_numeral_digits()),
        rest.len() == 0 || !is_digit(rest[0]),
    ensures
        spec_parse_uint(dec_str(n) + rest) == Some((n, rest)),
{
    lemma_dec_str_props(n, max_numeral_digits());
    let d = dec_str(n);
    let s = d + rest;
    assert(s[0] == d[0]);
    lemma_parse_uint_rec_append(d, rest, 0, 0);
    assert(0 * pow10(d.len() as int) == 0) by (nonlinear_arith);
}

// ---------------------------------------------------------------------------
// executable counterparts

/// Prepending already-decoded characters to a parse outcome.
pub open spec fn opt_prepend(pre: Seq<char>, o: Option<(Seq<char>, Seq<char>)>) -> Option<
    (Seq<char>, Seq<char>),
> {
    match o {
        Some((t, r)) => Some((pre + t, r)),
        None => None,
    }
}

/// Relies on `String::push`: appends exactly the given character.
#[verifier::external_body]
pub(crate) fn push_char(s: &mut String, c: char)
    ensures
        final(s)@ == old(s)@.push(c),
{
    s.push(c);
}

/// Relies on `char::from_u32`: `Some` exactly on Unicode scalar values,
/// and the character has the given value.
#[verifier::external_body]
pub(crate) fn char_from_u32(v: u32) -> (r: Option<char>)
    ensures
        is_scalar_value(v as int) <==> r is Some,
        r matches Some(c) ==> c as int == v as int,
{
    char::from_u32(v)
}

/// Executable test of [`is_json_ws`].
pub(crate) fn is_ws_char(c: char) -> (r: bool)
    ensures
        r == is_json_ws(c),
{
    c == ' ' || c == '\t' || c == '\n' || c == '\r'
}

/// Executable test of [`is_digit`].
pub(crate) fn is_digit_char(c: char) -> (r: bool)
    ensures
        r == is_digit(c),
{
    '0' <= c && c <= '9'
}

/// Executable test of [`is_hex_digit`].
pub(crate) fn is_hex_digit_char(c: char) -> (r: bool)
    ensures
        r == is_hex_digit(c),
{
    ('0' <= c && c <= '9') || ('a' <= c && c <= 'f') || ('A' <= c && c <= 'F')
}

/// Executable [`hex_val`].
pub(crate) fn hex_val_char(c: char) -> (r: u32)
    requires
        is_hex_digit(c),
    ensures
        r as int == hex_val(c),
        r < 16,
{
    let u = c as u32;
    if '0' <= c && c <= '9' {
        u - 48
    } else if 'a' <= c && c <= 'f' {
        u - 97 + 10
    } else {
        u - 65 + 10
    }
}

/// Skip whitespace from `i`: the index where [`spec_skip_ws`] lands.
pub(crate) fn skip_ws_at(v: &Vec<char>, i: usize) -> (j: usize)
    requires
        i <= v@.len(),
    ensures
        i <= j <= v@.len(),
        spec_skip_ws(v@.skip(i as int)) == v@.skip(j as int),
        v@.skip(j as int).len() == 0 || !is_json_ws(v@.skip(j as int)[0]),
{
    let mut j = i;
    while j < v.len() && is_ws_char(v[j])
        invariant
            i <= j <= v@.len(),
            spec_skip_ws(v@.skip(i as int)) == spec_skip_ws(v@.skip(j as int)),
        decreases v@.len() - j,
    {
        proof {
            assert(v@.skip(j as int)[0] == v@[j as int]);
            assert(v@.skip(j as int).skip(1) =~= v@.skip(j as int + 1));
        }
        j += 1;
    }
    proof {
        lemma_skip_ws_id(v@.skip(j as int));
    }
    j
}

/// Parse a JSON string starting at `i`, as [`spec_parse_string`] does on
/// the input from `i`.
#[verifier::loop_isolation(false)]
pub(crate) fn parse_string_at(v: &Vec<char>, i: usize) -> (r: Option<(String, usize)>)
    requires
        i <= v@.len(),
    ensures
        match r {
            Some((out, j)) => {
                &&& i < j <= v@.len()
                &&& spec_parse_string(v@.skip(i as int)) == Some((out@, v@.skip(j as int)))
            },
            None => spec_parse_string(v@.skip(i as int)) is None,
        },
{
    if i >= v.len() || v[i] != '"' {
        proof {
            if v@.skip(i as int).len() > 0 {
                assert(v@.skip(i as int)[0] == v@[i as int]);
            }
        }
        return None;
    }
    proof {
        assert(v@.skip(i as int)[0] == '"');
        assert(v@.skip(i as int).skip(1) =~= v@.skip(i as int + 1));
    }
    let ghost start = v@.skip(i as int + 1);
    let mut out = String::new();
    let mut j = i + 1;
    loop
        invariant
            i + 1 <= j <= v@.len(),
            spec_parse_string_body(start) == opt_prepend(out@, spec_parse_string_body(
                v@.skip(j as int),
            )),
        decreases v@.len() - j,
    {
        let ghost s = v@.skip(j as int);
        if j >= v.len() {
            assert(s.len() == 0);
            return None;
        }
        let c = v[j];
        assert(s[0] == c);
        if c == '"' {
            proof {
                assert(s.skip(1) =~= v@.skip(j as int + 1));
                assert(out@ + Seq::<char>::empty() =~= out@);
            }
            return Some((out, j + 1));
        } else if c == '\\' {
            if j + 1 >= v.len() {
                assert(s.len() < 2);
                return None;
            }
            let e = v[j + 1];
            assert(s[1] == e);
            if e == 'u' {
                if v.len() - j < 6 {
                    assert(s.len() < 6);
                    return None;
                }
                assert(s.len() >= 6);
                assert(s[2] == v@[j as int + 2] && s[3] == v@[j as int + 3] && s[4] == v@[
                    j as int + 4
                ] && s[5] == v@[j as int + 5]);
                let h2 = v[j + 2];
                let h3 = v[j + 3];
                let h4 = v[j + 4];
                let h5 = v[j + 5];
                if !(is_hex_digit_char(h2) && is_hex_digit_char(h3) && is_hex_digit_char(h4)
                    && is_hex_digit_char(h5)) {
                    return None;
                }
                let val = ((hex_val_char(h2) * 16 + hex_val_char(h3)) * 16 + hex_val_char(h4)) * 16
                    + hex_val_char(h5);
                match char_from_u32(val) {
                    None => {
                        return None;
                    },
                    Some(c2) => {
                        proof {
                            assert(s.skip(6) =~= v@.skip(j as int + 6));
                            assert(spec_parse_string_body(s) == opt_prepend(
                                seq![c2],
                                spec_parse_string_body(s.skip(6)),
                            ));
                            lemma_opt_prepend_chain(out@, c2, spec_parse_string_body(s.skip(6)));
                        }
                        push_char(&mut out, c2);
                        j += 6;
                    },
                }
            } else {
                let dec = unescape_code_char(e);
                match dec {
                    None => {
                        return None;
                    },
                    Some(c2) => {
                        proof {
                            assert(s.skip(2) =~= v@.skip(j as int + 2));
                            assert(spec_parse_string_body(s) == opt_prepend(
                                seq![c2],
                                spec_parse_string_body(s.skip(2)),
                            ));
                            lemma_opt_prepend_chain(out@, c2, spec_parse_string_body(s.skip(2)));
                        }
                        push_char(&mut out, c2);
                        j += 2;
                    },
                }
            }
        } else if (c as u32) < 0x20 {
            proof {
                lemma_char_bounds(c);
            }
            return None;
        } else {
            proof {
                lemma_char_bounds(c);
                assert(!((s[0] as int) < 0x20));
                assert(s.skip(1) =~= v@.skip(j as int + 1));
                assert(spec_parse_string_body(s) == opt_prepend(
                    seq![c],
                    spec_parse_string_body(s.skip(1)),
                ));
                lemma_opt_prepend_chain(out@, c, spec_parse_string_body(s.skip(1)));
            }
            push_char(&mut out, c);
            j += 1;
        }
    }
}

/// Executable [`unescape_code`].
pub(crate) fn unescape_code_char(e: char) -> (r: Option<char>)
    ensures
        r == unescape_code(e),
{
    if e == '"' {
        Some('"')
    } else if e == '\\' {
        Some('\\')
    } else if e == '/' {
        Some('/')
    } else if e == 'b' {
        Some('\u{8}')
    } else if e == 'f' {
        Some('\u{c}')
    } else if e == 'n' {
        Some('\n')
    } else if e == 'r' {
        Some('\r')
    } else if e == 't' {
        Some('\t')
    } else {
        None
    }
}

/// Appending one decoded character to the front of what follows.
proof fn lemma_opt_prepend_chain(pre: Seq<char>, c: char, o: Option<(Seq<char>, Seq<char>)>)
    ensures
        opt_prepend(pre, opt_prepend(seq![c], o)) == opt_prepend(pre.push(c), o),
{
    match o {
        Some((t, r)) => {
            assert(pre + (seq![c] + t) =~= pre.push(c) + t);
        },
        None => {},
    }
}

/// Parse a numeral starting at `i`, as [`spec_parse_uint`] does on the
/// input from `i`.
#[verifier::loop_isolation(false)]
pub(crate) fn parse_uint_at(v: &Vec<char>, i: usize) -> (r: Option<(u64, usize)>)
    requires
        i <= v@.len(),
    ensures
        match r {
            Some((n, j)) => {
                &&& i < j <= v@.len()
                &&& spec_parse_uint(v@.skip(i as int)) == Some((n as int, v@.skip(j as int)))
            },
            None => spec_parse_uint(v@.skip(i as int)) is None,
        },
{
    if i >= v.len() || !is_digit_char(v[i]) {
        proof {
            if v@.skip(i as int).len() > 0 {
                assert(v@.skip(i as int)[0] == v@[i as int]);
            }
        }
        return None;
    }
    assert(v@.skip(i as int)[0] == v@[i as int]);
    let mut acc: u64 = 0;
    let mut cnt: usize = 0;
    let mut j = i;
    proof {
        lemma_pow10_bound();
    }
    loop
        invariant
            i <= j <= v@.len(),
            cnt <= max_numeral_digits(),
            (acc as int) < pow10(cnt as int),
            pow10(max_numeral_digits()) <= u64::MAX as int,
            cnt < max_numeral_digits() ==> 10 * pow10(cnt as int) <= pow10(max_numeral_digits()),
            spec_parse_uint_rec(v@.skip(i as int), 0, 0) == spec_parse_uint_rec(
                v@.skip(j as int),
                acc as int,
                cnt as int,
            ),
            j == i ==> v@.skip(i as int).len() > 0 && is_digit(v@.skip(i as int)[0]),
            j > i || (acc == 0 && cnt == 0),
        decreases v@.len() - j,
    {
        let ghost s = v@.skip(j as int);
        if j >= v.len() || !is_digit_char(v[j]) {
            proof {
                if s.len() > 0 {
                    assert(s[0] == v@[j as int]);
                }
                assert(spec_parse_uint_rec(s, acc as int, cnt as int) == Some((acc as int, s)));
            }
            if j == i {
                // unreachable: the first character was a digit
                assert(false);
                return None;
            }
            return Some((acc, j));
        }
        let c = v[j];
        assert(s[0] == c && is_digit(c));
        if cnt >= 19 {
            assert(spec_parse_uint_rec(s, acc as int, cnt as int) is None);
            return None;
        }
        proof {
            assert(pow10(cnt as int + 1) == 10 * pow10(cnt as int));
            assert(s.skip(1) =~= v@.skip(j as int + 1));
        }
        let d = (c as u32) - 48;
        assert(d as int == digit_val(c));
        assert(10 * (acc as int) + (d as int) < 10 * pow10(cnt as int));
        acc = acc * 10 + (d as u64);
        cnt += 1;
        j += 1;
    }
}

/// The numeral bound and its slack within `u64`.
proof fn lemma_pow10_bound()
    ensures
        pow10(max_numeral_digits()) <= u64::MAX as int,
        forall|k: int|
            0 <= k < max_numeral_digits() ==> 10 * #[trigger] pow10(k) <= pow10(
                max_numeral_digits(),
            ),
{
    reveal_with_fuel(pow10, 20);
    assert forall|k: int| 0 <= k < max_numeral_digits() implies 10 * #[trigger] pow10(k) <= pow10(
        max_numeral_digits(),
    ) by {
        lemma_pow10_mono(k + 1, max_numeral_digits());
        assert(pow10(k + 1) == 10 * pow10(k));
    }
}

/// Powers of ten grow with the exponent.
proof fn lemma_pow10_mono(a: int, b: int)
    requires
        0 <= a <= b,
    ensures
        pow10(a) <= pow10(b),
    decreases b - a,
{
    if a < b {
        lemma_pow10_mono(a, b - 1);
        assert(pow10(b) == 10 * pow10(b - 1));
        assert(pow10(b - 1) >= 1) by {
            lemma_pow10_pos(b - 1);
        }
    }
}

/// Powers of ten are positive.
proof fn lemma_pow10_pos(k: int)
    requires
        0 <= k,
    ensures
        pow10(k) >= 1,
    decreases k,
{
    if k > 0 {
        lemma_pow10_pos(k - 1);
    }
}

} // verus!
