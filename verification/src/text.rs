//! Text helpers shared by the exchange adapters: decimal formatting and
//! parsing of unsigned integers, lowercase hex encoding, and byte-level
//! string predicates.

use vstd::prelude::*;
use vstd::string::*;
use vstd::utf8::*;

verus! {

/// Appends one character to a `String` (`String::push`).
#[verifier::external_body]
pub(crate) fn push_char(s: &mut String, c: char)
    ensures
        final(s)@ == old(s)@.push(c),
{
    s.push(c);
}

/// The character of a decimal digit `d < 10`.
pub open spec fn digit_char(d: nat) -> char {
    (48 + d) as char
}

/// The decimal representation of `n`, most significant digit first,
/// without leading zeros (`0` is written `"0"`).
pub open spec fn decimal_chars(n: nat) -> Seq<char>
    decreases n,
{
    if n < 10 {
        seq![digit_char(n)]
    } else {
        decimal_chars(n / 10).push(digit_char(n % 10))
    }
}

fn digit(d: u64) -> (c: char)
    requires
        d < 10,
    ensures
        c == digit_char(d as nat),
{
    let b: u8 = d as u8;
    (48u8 + b) as char
}

/// Appends the decimal representation of `n` to `s`.
pub fn push_decimal(s: &mut String, n: u64)
    ensures
        final(s)@ == old(s)@ + decimal_chars(n as nat),
    decreases n,
{
    if n < 10 {
        push_char(s, digit(n));
        assert(s@ =~= old(s)@ + decimal_chars(n as nat));
    } else {
        push_decimal(s, n / 10);
        push_char(s, digit(n % 10));
        assert(s@ =~= old(s)@ + decimal_chars(n as nat));
    }
}

/// The decimal representation of `n` as a new `String`.
pub fn u64_to_decimal(n: u64) -> (s: String)
    ensures
        s@ == decimal_chars(n as nat),
{
    let mut s = String::new();
    push_decimal(&mut s, n);
    assert(s@ =~= decimal_chars(n as nat));
    s
}


/// The lowercase hexadecimal character of a nibble `n < 16`.
pub open spec fn hex_digit_char(n: nat) -> char {
    if n < 10 {
        (48 + n) as char
    } else {
        (87 + n) as char
    }
}

/// Lowercase hex encoding, two characters per byte, high nibble first.
pub open spec fn hex_chars(bytes: Seq<u8>) -> Seq<char>
    decreases bytes.len(),
{
    if bytes.len() == 0 {
        seq![]
    } else {
        hex_chars(bytes.drop_last()).push(hex_digit_char(bytes.last() as nat / 16)).push(
            hex_digit_char(bytes.last() as nat % 16),
        )
    }
}

/// Every character is a lowercase hexadecimal digit (`0`-`9`, `a`-`f`).
pub open spec fn is_lower_hex_text(s: Seq<char>) -> bool {
    forall|i: int|
        0 <= i < s.len() ==> ('0' <= #[trigger] s[i] <= '9' || 'a' <= s[i] <= 'f')
}

/// Hex encoding writes two lowercase hex digits per byte.
pub proof fn lemma_hex_chars(bytes: Seq<u8>)
    ensures
        hex_chars(bytes).len() == 2 * bytes.len(),
        is_lower_hex_text(hex_chars(bytes)),
    decreases bytes.len(),
{
    if bytes.len() > 0 {
        lemma_hex_chars(bytes.drop_last());
        let prev = hex_chars(bytes.drop_last());
        let h = hex_chars(bytes);
        let hi = bytes.last() as nat / 16;
        let lo = bytes.last() as nat % 16;
        assert(h == prev.push(hex_digit_char(hi)).push(hex_digit_char(lo)));
        assert forall|i: int| 0 <= i < h.len() implies ('0' <= #[trigger] h[i] <= '9' || 'a'
            <= h[i] <= 'f') by {
            if i < prev.len() {
                assert(h[i] == prev[i]);
            } else if i == prev.len() {
                assert(h[i] == hex_digit_char(hi));
            } else {
                assert(h[i] == hex_digit_char(lo));
            }
        }
    }
}

fn hex_digit(n: u8) -> (c: char)
    requires
        n < 16,
    ensures
        c == hex_digit_char(n as nat),
{
    if n < 10 {
        (48u8 + n) as char
    } else {
        (87u8 + n) as char
    }
}

/// Lowercase hex encoding of `bytes` (each byte written as `{:02x}`).
pub fn hex(bytes: &[u8]) -> (s: String)
    ensures
        s@ == hex_chars(bytes@),
        s@.len() == 2 * bytes@.len(),
{
    let mut s = String::new();
    let mut i: usize = 0;
    while i < bytes.len()
        invariant
            i <= bytes@.len(),
            s@ == hex_chars(bytes@.take(i as int)),
            s@.len() == 2 * i,
        decreases bytes@.len() - i,
    {
        let b = bytes[i];
        push_char(&mut s, hex_digit(b / 16));
        push_char(&mut s, hex_digit(b % 16));
        assert(bytes@.take(i + 1).drop_last() =~= bytes@.take(i as int));
        i = i + 1;
    }
    assert(bytes@.take(i as int) =~= bytes@);
    s
}

/// An ASCII decimal digit.
pub open spec fn is_digit(b: u8) -> bool {
    48 <= b <= 57
}

/// The value of a sequence of decimal digits, most significant first.
pub open spec fn digits_value(d: Seq<u8>) -> nat
    decreases d.len(),
{
    if d.len() == 0 {
        0
    } else {
        digits_value(d.drop_last()) * 10 + (d.last() - 48) as nat
    }
}

/// Every byte is an ASCII decimal digit.
pub open spec fn all_digits(d: Seq<u8>) -> bool {
    forall|i: int| 0 <= i < d.len() ==> is_digit(#[trigger] d[i])
}

/// What remains of an unsigned number's text after an optional leading `+`.
pub open spec fn unsigned_digits(b: Seq<u8>) -> Seq<u8> {
    if b.len() > 0 && b[0] == 43 {
        b.drop_first()
    } else {
        b
    }
}

/// The result of parsing `b` as an unsigned integer no larger than `max`, as
/// `str::parse` does for Rust's unsigned types: an optional `+`, then one or
/// more decimal digits; `None` on any other byte, on empty digits, and on a
/// value above `max`.
pub open spec fn parse_unsigned(b: Seq<u8>, max: nat) -> Option<nat> {
    let d = unsigned_digits(b);
    if d.len() > 0 && all_digits(d) && digits_value(d) <= max {
        Some(digits_value(d))
    } else {
        None
    }
}

proof fn lemma_digits_value_prefix_monotone(d: Seq<u8>, i: int, j: int)
    requires
        0 <= i <= j <= d.len(),
        all_digits(d),
    ensures
        digits_value(d.take(i)) <= digits_value(d.take(j)),
    decreases j - i,
{
    if i < j {
        lemma_digits_value_prefix_monotone(d, i, j - 1);
        assert(d.take(j).drop_last() =~= d.take(j - 1));
        assert(d.take(j).last() == d[j - 1]);
        assert(is_digit(d[j - 1]));
    }
}

proof fn overflow_rejects(d: Seq<u8>, j: int)
    requires
        0 <= j < d.len(),
    ensures
        all_digits(d) ==> digits_value(d.take(j + 1)) <= digits_value(d),
{
    if all_digits(d) {
        lemma_digits_value_prefix_monotone(d, j + 1, d.len() as int);
        assert(d.take(d.len() as int) =~= d);
    }
}

/// Parses `b` as an unsigned integer no larger than `max` (see
/// `parse_unsigned`).
pub fn parse_unsigned_bytes(b: &[u8], max: u64) -> (r: Option<u64>)
    ensures
        match r {
            Some(v) => parse_unsigned(b@, max as nat) == Some(v as nat),
            None => parse_unsigned(b@, max as nat) is None,
        },
{
    let ghost d = unsigned_digits(b@);
    let start: usize = if b.len() > 0 && b[0] == 43u8 {
        1
    } else {
        0
    };
    assert(d =~= b@.skip(start as int));
    if start >= b.len() {
        return None;
    }
    let mut acc: u64 = 0;
    let mut i: usize = start;
    while i < b.len()
        invariant
            start <= i <= b@.len(),
            d =~= b@.skip(start as int),
            d == unsigned_digits(b@),
            forall|k: int| 0 <= k < i - start ==> is_digit(#[trigger] d[k]),
            acc as nat == digits_value(d.take(i - start)),
            acc <= max,
        decreases b@.len() - i,
    {
        let c = b[i];
        if c < 48u8 || c > 57u8 {
            assert(!is_digit(d[i - start]));
            assert(!all_digits(d));
            return None;
        }
        assert(d.take(i - start + 1).drop_last() =~= d.take(i - start));
        assert(d.take(i - start + 1).last() == c);
        let digit_value: u64 = (c - 48u8) as u64;
        match acc.checked_mul(10) {
            Some(t) => match t.checked_add(digit_value) {
                Some(v) => {
                    if v > max {
                        proof {
                            overflow_rejects(d, (i - start) as int);
                        }
                        return None;
                    }
                    acc = v;
                },
                None => {
                    proof {
                        overflow_rejects(d, (i - start) as int);
                    }
                    return None;
                },
            },
            None => {
                proof {
                    overflow_rejects(d, (i - start) as int);
                }
                return None;
            },
        }
        i = i + 1;
    }
    assert(d.take(i - start) =~= d);
    Some(acc)
}


/// Whether two strings hold the same text (compared byte by byte, as
/// `str`'s `==` does).
pub fn same_text(a: &str, b: &str) -> (r: bool)
    ensures
        r == (a@ == b@),
{
    let x = a.as_bytes();
    let y = b.as_bytes();
    proof {
        encode_utf8_decode_utf8(a@);
        encode_utf8_decode_utf8(b@);
    }
    if x.len() != y.len() {
        return false;
    }
    let mut i: usize = 0;
    while i < x.len()
        invariant
            i <= x@.len(),
            x@.len() == y@.len(),
            x@ == a.spec_bytes(),
            y@ == b.spec_bytes(),
            forall|k: int| 0 <= k < i ==> x@[k] == y@[k],
        decreases x@.len() - i,
    {
        if x[i] != y[i] {
            assert(x@ != y@);
            return false;
        }
        i = i + 1;
    }
    assert(x@ =~= y@);
    true
}

/// Whether an optional string is present and holds the given text.
pub fn is_text(a: Option<&str>, b: &str) -> (r: bool)
    ensures
        r == (a matches Some(s) && s@ == b@),
{
    match a {
        Some(s) => same_text(s, b),
        None => false,
    }
}


/// ASCII lowercase of one byte; other bytes are unchanged.
pub open spec fn ascii_lower(b: u8) -> u8 {
    if 65 <= b <= 90 {
        (b + 32) as u8
    } else {
        b
    }
}

/// ASCII case-insensitive equality of two byte strings
/// (`str::eq_ignore_ascii_case`).
pub open spec fn eq_ignore_ascii_case(a: Seq<u8>, b: Seq<u8>) -> bool {
    a.len() == b.len() && forall|i: int| 0 <= i < a.len() ==> ascii_lower(#[trigger] a[i]) == ascii_lower(b[i])
}

fn lower_byte(b: u8) -> (r: u8)
    ensures
        r == ascii_lower(b),
{
    if 65u8 <= b && b <= 90u8 {
        b + 32
    } else {
        b
    }
}

/// Whether `a` and `b` match when ASCII letters are compared without
/// regard to case.
pub fn text_eq_ignore_ascii_case(a: &str, b: &str) -> (r: bool)
    ensures
        r == eq_ignore_ascii_case(a.spec_bytes(), b.spec_bytes()),
{
    let x = a.as_bytes();
    let y = b.as_bytes();
    if x.len() != y.len() {
        return false;
    }
    let mut i: usize = 0;
    while i < x.len()
        invariant
            i <= x@.len(),
            x@.len() == y@.len(),
            x@ == a.spec_bytes(),
            y@ == b.spec_bytes(),
            forall|k: int| 0 <= k < i ==> ascii_lower(#[trigger] x@[k]) == ascii_lower(y@[k]),
        decreases x@.len() - i,
    {
        if lower_byte(x[i]) != lower_byte(y[i]) {
            return false;
        }
        i = i + 1;
    }
    true
}


/// The Unicode lowercase of a text.
pub uninterp spec fn lowercase_of(s: Seq<char>) -> Seq<char>;

/// Lowercases a text through `str::to_lowercase`. Claimed: the result is
/// `lowercase_of` the input.
#[verifier::external_body]
pub(crate) fn to_lowercase(s: &str) -> (r: String)
    ensures
        r@ == lowercase_of(s@),
{
    s.to_lowercase()
}


/// Views bytes as text through `std::str::from_utf8`. Claimed: it succeeds
/// exactly when the bytes are valid UTF-8, and the text it gives holds
/// those same bytes.
#[verifier::external_body]
pub(crate) fn utf8_text(bytes: &[u8]) -> (r: Option<&str>)
    ensures
        r is Some <==> valid_utf8(bytes@),
        r matches Some(s) ==> s.spec_bytes() == bytes@,
{
    std::str::from_utf8(bytes).ok()
}


/// The decimal digits of `n` as ASCII bytes, most significant first.
pub open spec fn decimal_digits(n: nat) -> Seq<u8>
    decreases n,
{
    if n < 10 {
        seq![(48 + n) as u8]
    } else {
        decimal_digits(n / 10).push((48 + n % 10) as u8)
    }
}

proof fn lemma_decimal_digits(n: nat)
    ensures
        decimal_digits(n).len() > 0,
        decimal_digits(n).len() == decimal_chars(n).len(),
        all_digits(decimal_digits(n)),
        digits_value(decimal_digits(n)) == n,
        forall|i: int|
            0 <= i < decimal_chars(n).len() ==> #[trigger] decimal_chars(n)[i] == (
            decimal_digits(n)[i] as char),
        is_ascii_chars(decimal_chars(n)),
    decreases n,
{
    if n < 10 {
        let d = decimal_digits(n);
        assert(d.drop_last() =~= Seq::<u8>::empty());
        assert(d.last() == (48 + n) as u8);
        assert(((48 + n) as u8) as int == 48 + n);
        assert(digits_value(d.drop_last()) == 0);
        assert(digits_value(d) == n);
    } else {
        lemma_decimal_digits(n / 10);
        let d = decimal_digits(n);
        assert(d.drop_last() =~= decimal_digits(n / 10));
        assert(((48 + n % 10) as u8) as int == 48 + n % 10);
        assert(n == (n / 10) * 10 + n % 10);
        assert(digits_value(d.drop_last()) == n / 10);
        assert(d.last() == (48 + n % 10) as u8);
        assert(digits_value(d) == n);
        assert forall|i: int| 0 <= i < d.len() implies is_digit(#[trigger] d[i]) by {
            if i < d.len() - 1 {
                assert(d[i] == decimal_digits(n / 10)[i]);
            }
        }
        let c = decimal_chars(n);
        assert forall|i: int| 0 <= i < c.len() implies '\0' <= #[trigger] c[i] <= '\u{7f}' by {
            if i < c.len() - 1 {
                assert(c[i] == decimal_chars(n / 10)[i]);
            }
        }
    }
}

/// The UTF-8 bytes of a number's decimal text are its ASCII digits.
pub proof fn lemma_decimal_encoding(n: nat)
    ensures
        encode_utf8(decimal_chars(n)) == decimal_digits(n),
{
    lemma_decimal_digits(n);
    is_ascii_chars_encode_utf8(decimal_chars(n));
    assert(encode_utf8(decimal_chars(n)) =~= decimal_digits(n));
}

/// Reading back a number's decimal text gives the number: parsing the
/// text that `u64_to_decimal` writes for `n` yields `n` whenever `n` is
/// within the bound.
pub proof fn law_decimal_parse_roundtrip(n: nat, max: nat)
    requires
        n <= max,
    ensures
        parse_unsigned(encode_utf8(decimal_chars(n)), max) == Some(n),
{
    lemma_decimal_encoding(n);
    lemma_decimal_digits(n);
    let d = decimal_digits(n);
    assert(is_digit(d[0]));
    assert(unsigned_digits(d) == d);
}

/// Different numbers have different decimal texts.
pub proof fn law_decimal_injective(a: nat, b: nat)
    requires
        decimal_chars(a) == decimal_chars(b),
    ensures
        a == b,
{
    law_decimal_parse_roundtrip(a, a + b);
    law_decimal_parse_roundtrip(b, a + b);
}


/// `b` with every trailing byte equal to `x` removed.
pub open spec fn trim_end_byte(b: Seq<u8>, x: u8) -> Seq<u8>
    decreases b.len(),
{
    if b.len() > 0 && b.last() == x {
        trim_end_byte(b.drop_last(), x)
    } else {
        b
    }
}

/// The length of `b` once trailing `x` bytes are removed.
fn trimmed_len(b: &[u8], end: usize, x: u8) -> (r: usize)
    requires
        end <= b@.len(),
    ensures
        r <= end,
        b@.take(r as int) == trim_end_byte(b@.take(end as int), x),
        r > 0 ==> b@[r - 1] != x,
        forall|k: int| r <= k < end ==> b@[k] == x,
{
    let mut i = end;
    while i > 0 && b[i - 1] == x
        invariant
            i <= end <= b@.len(),
            trim_end_byte(b@.take(i as int), x) == trim_end_byte(b@.take(end as int), x),
            forall|k: int| i <= k < end ==> b@[k] == x,
        decreases i,
    {
        assert(b@.take(i as int).drop_last() =~= b@.take(i - 1));
        i = i - 1;
    }
    assert(i > 0 ==> b@.take(i as int).last() == b@[i - 1]);
    i
}

/// The decimal text of a number written with a fixed number of fraction
/// digits, shortened: trailing zeros are dropped, then a trailing point
/// (`100.2500` becomes `100.25`, `3.000` becomes `3`).
pub fn trim_decimal(s: &str) -> (r: String)
    ensures
        encode_utf8(r@) == trim_end_byte(trim_end_byte(encode_utf8(s@), 48), 46),
{
    let b = s.as_bytes();
    let zeros_end = trimmed_len(b, b.len(), 48u8);
    let end = trimmed_len(b, zeros_end, 46u8);
    assert(b@.take(b@.len() as int) =~= b@);
    proof {
        encode_utf8_valid_utf8(s@);
        if end < b@.len() {
            is_char_boundary_iff_not_is_continuation_byte(b@, end as int);
            assert(b@[end as int] == 46 || b@[end as int] == 48);
        } else {
            is_char_boundary_start_end_of_seq(b@);
        }
    }
    let (head, _tail) = s.split_at(end);
    proof {
        encode_utf8_decode_utf8(head@);
        assert(head.spec_bytes() =~= b@.take(end as int));
    }
    String::from_str(head)
}


/// The text view of an optional string slice.
pub open spec fn opt_str_view(o: Option<&str>) -> Option<Seq<char>> {
    match o {
        Some(s) => Some(s@),
        None => None,
    }
}

/// The text view of an optional string.
pub open spec fn opt_string_view(o: Option<String>) -> Option<Seq<char>> {
    match o {
        Some(s) => Some(s@),
        None => None,
    }
}

} // verus!
