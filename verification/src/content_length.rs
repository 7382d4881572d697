//! Reading the `Content-Length` header of a response.
//!
//! The header value arrives as raw bytes. As in the `http` crate, a value
//! is readable as text only when every byte is visible ASCII or a tab;
//! the text is then read as an unsigned 64-bit decimal number, as
//! `u64::from_str` reads it: an optional `+`, then one or more decimal
//! digits, whose value must fit in a `u64`.

use vstd::prelude::*;

verus! {

/// A byte that a header value may hold when read as text.
pub open spec fn spec_visible_ascii(b: u8) -> bool {
    (32 <= b && b < 127) || b == 9
}

/// All bytes of a header value are readable as text.
pub open spec fn spec_header_text(v: Seq<u8>) -> bool {
    forall|i: int| 0 <= i < v.len() ==> spec_visible_ascii(#[trigger] v[i])
}

/// An ASCII decimal digit.
pub open spec fn spec_is_digit(b: u8) -> bool {
    48 <= b && b <= 57
}

/// The numeric value of one digit byte (zero for any other byte).
pub open spec fn digit_value(b: u8) -> nat {
    if spec_is_digit(b) {
        (b - 48) as nat
    } else {
        0
    }
}

/// The value of a string of decimal digits, most significant first.
pub open spec fn decimal_value(s: Seq<u8>) -> nat
    decreases s.len(),
{
    if s.len() == 0 {
        0
    } else {
        decimal_value(s.drop_last()) * 10 + digit_value(s.last())
    }
}

/// Every byte is a decimal digit.
pub open spec fn spec_all_digits(s: Seq<u8>) -> bool {
    forall|i: int| 0 <= i < s.len() ==> spec_is_digit(#[trigger] s[i])
}

/// The digits that follow an optional leading `+`.
pub open spec fn unsigned_digits(s: Seq<u8>) -> Seq<u8> {
    if s.len() > 0 && s[0] == 43 {
        s.drop_first()
    } else {
        s
    }
}

/// What `u64::from_str` yields for the text `s`.
pub open spec fn spec_parse_u64(s: Seq<u8>) -> Option<u64> {
    let d = unsigned_digits(s);
    if d.len() > 0 && spec_all_digits(d) && decimal_value(d) <= u64::MAX {
        Some(decimal_value(d) as u64)
    } else {
        None
    }
}

/// The length announced by a `Content-Length` header, if present and readable.
pub open spec fn spec_content_length(header: Option<Seq<u8>>) -> Option<u64> {
    match header {
        Some(v) => if spec_header_text(v) {
            spec_parse_u64(v)
        } else {
            None
        },
        None => None,
    }
}

/// The bytes of an optional header value, as a sequence.
pub open spec fn header_bytes(header: Option<&[u8]>) -> Option<Seq<u8>> {
    match header {
        Some(v) => Some(v@),
        None => None,
    }
}

/// A prefix of a digit string is worth no more than the whole string.
pub proof fn lemma_prefix_value_le(s: Seq<u8>, k: int)
    requires
        0 <= k <= s.len(),
    ensures
        decimal_value(s.take(k)) <= decimal_value(s),
    decreases s.len(),
{
    if k == s.len() {
        assert(s.take(k) =~= s);
    } else {
        lemma_prefix_value_le(s.drop_last(), k);
        assert(s.drop_last().take(k) =~= s.take(k));
    }
}

/// The usual decimal rendering of `n`: its digits, most significant first,
/// without leading zeros (`0` is rendered as a single `0`).
pub open spec fn decimal_digits(n: nat) -> Seq<u8>
    decreases n,
{
    if n < 10 {
        seq![(48 + n) as u8]
    } else {
        decimal_digits(n / 10).push((48 + n % 10) as u8)
    }
}

proof fn lemma_decimal_digits(n: nat)
    ensures
        decimal_value(decimal_digits(n)) == n,
        spec_all_digits(decimal_digits(n)),
        decimal_digits(n).len() > 0,
        spec_is_digit(decimal_digits(n)[0]),
    decreases n,
{
    let d = decimal_digits(n);
    if n >= 10 {
        lemma_decimal_digits(n / 10);
        assert(d.drop_last() =~= decimal_digits(n / 10));
        assert(d[0] == decimal_digits(n / 10)[0]);
        assert(digit_value(d.last()) == n % 10);
        assert((n / 10) * 10 + n % 10 == n) by (nonlinear_arith);
        assert(decimal_value(d) == decimal_value(d.drop_last()) * 10 + digit_value(d.last()));
        assert forall|i: int| 0 <= i < d.len() implies spec_is_digit(#[trigger] d[i]) by {
            if i < d.len() - 1 {
                assert(d[i] == decimal_digits(n / 10)[i]);
            }
        }
    } else {
        assert(d.drop_last() =~= Seq::<u8>::empty());
        assert(digit_value(d.last()) == n);
        assert(decimal_value(d.drop_last()) == 0);
        assert(decimal_value(d) == decimal_value(d.drop_last()) * 10 + digit_value(d.last()));
    }
}

/// Reading back the decimal rendering of any `u64` gives that number.
pub proof fn parse_reads_back_decimal_rendering(n: u64)
    ensures
        spec_parse_u64(decimal_digits(n as nat)) == Some(n),
        spec_parse_u64(seq![43u8] + decimal_digits(n as nat)) == Some(n),
{
    lemma_decimal_digits(n as nat);
    let d = decimal_digits(n as nat);
    assert((seq![43u8] + d).drop_first() =~= d);
}

/// Leading zeros do not change the number read.
pub proof fn parse_ignores_leading_zeros(d: Seq<u8>)
    requires
        d.len() > 0,
        spec_is_digit(d[0]),
    ensures
        spec_parse_u64(seq![48u8] + d) == spec_parse_u64(d),
{
    let z = seq![48u8] + d;
    lemma_leading_zero_value(d);
    assert forall|i: int| 0 <= i < z.len() implies spec_is_digit(#[trigger] z[i]) == (i == 0
        || spec_is_digit(d[i - 1])) by {}
    if spec_all_digits(d) {
        assert(spec_all_digits(z));
    } else {
        let j = choose|j: int| 0 <= j < d.len() && !spec_is_digit(#[trigger] d[j]);
        assert(!spec_is_digit(z[j + 1]));
    }
}

proof fn lemma_leading_zero_value(d: Seq<u8>)
    ensures
        decimal_value(seq![48u8] + d) == decimal_value(d),
    decreases d.len(),
{
    let z = seq![48u8] + d;
    if d.len() == 0 {
        assert(z.drop_last() =~= Seq::<u8>::empty());
        assert(z.last() == 48u8);
        assert(decimal_value(z.drop_last()) == 0);
        assert(decimal_value(z) == decimal_value(z.drop_last()) * 10 + digit_value(z.last()));
        assert(decimal_value(d) == 0);
    } else {
        lemma_leading_zero_value(d.drop_last());
        assert(z.drop_last() =~= seq![48u8] + d.drop_last());
        assert(z.last() == d.last());
        assert(decimal_value(z) == decimal_value(z.drop_last()) * 10 + digit_value(z.last()));
        assert(decimal_value(d) == decimal_value(d.drop_last()) * 10 + digit_value(d.last()));
    }
}

/// A number of more than 64 bits is not read.
pub proof fn parse_rejects_overflow(n: nat)
    requires
        n > u64::MAX,
    ensures
        spec_parse_u64(decimal_digits(n)) is None,
{
    lemma_decimal_digits(n);
}

/// Text holding a byte other than a decimal digit, past an optional leading
/// `+`, is not read; nor is text with no digit at all.
pub proof fn parse_rejects_non_digits(s: Seq<u8>, i: int)
    requires
        0 <= i < s.len(),
        !spec_is_digit(s[i]),
        !(i == 0 && s[i] == 43),
    ensures
        spec_parse_u64(s) is None,
        spec_parse_u64(Seq::empty()) is None,
        spec_parse_u64(seq![43u8]) is None,
{
    let d = unsigned_digits(s);
    if s.len() > 0 && s[0] == 43 {
        assert(d[i - 1] == s[i]);
    } else {
        assert(d[i] == s[i]);
    }
    assert(seq![43u8].drop_first().len() == 0);
}

/// Header text is exactly the bytes from space to `~`, and the tab.
pub proof fn header_text_is_visible_ascii_or_tab(v: Seq<u8>)
    ensures
        spec_header_text(v) <==> forall|i: int|
            0 <= i < v.len() ==> (#[trigger] v[i] == 9 || (32 <= v[i] && v[i] <= 126)),
{
}

/// A `Content-Length` header holding the decimal rendering of `n` announces
/// `n`; a header holding a control byte announces nothing; no header,
/// nothing.
pub proof fn content_length_reads_announced_length(n: u64, v: Seq<u8>, i: int)
    requires
        0 <= i < v.len(),
        v[i] < 32 && v[i] != 9,
    ensures
        spec_content_length(Some(decimal_digits(n as nat))) == Some(n),
        spec_content_length(Some(v)) is None,
        spec_content_length(None) is None,
{
    parse_reads_back_decimal_rendering(n);
    lemma_decimal_digits(n as nat);
    let d = decimal_digits(n as nat);
    assert forall|j: int| 0 <= j < d.len() implies spec_visible_ascii(#[trigger] d[j]) by {
        assert(spec_is_digit(d[j]));
    }
    assert(!spec_visible_ascii(v[i]));
}

/// Whether every byte of `v` is visible ASCII or a tab.
pub fn is_header_text(v: &[u8]) -> (b: bool)
    ensures
        b == spec_header_text(v@),
{
    let mut i: usize = 0;
    while i < v.len()
        invariant
            0 <= i <= v.len(),
            forall|j: int| 0 <= j < i ==> spec_visible_ascii(#[trigger] v@[j]),
        decreases v.len() - i,
    {
        let c = v[i];
        if !((32 <= c && c < 127) || c == 9) {
            assert(!spec_visible_ascii(v@[i as int]));
            return false;
        }
        i += 1;
    }
    true
}

/// Read `s` as an unsigned 64-bit decimal number, as `u64::from_str` does.
pub fn parse_u64(s: &[u8]) -> (r: Option<u64>)
    ensures
        r == spec_parse_u64(s@),
{
    let n = s.len();
    let start: usize = if n > 0 && s[0] == 43 {
        1
    } else {
        0
    };
    let ghost d = unsigned_digits(s@);
    assert(d =~= s@.subrange(start as int, n as int));
    if start >= n {
        return None;
    }
    let mut acc: u64 = 0;
    let mut i: usize = start;
    while i < n
        invariant
            n == s@.len(),
            start <= i <= n,
            d =~= s@.subrange(start as int, n as int),
            d == unsigned_digits(s@),
            acc == decimal_value(d.take(i - start)),
            forall|j: int| 0 <= j < i - start ==> spec_is_digit(#[trigger] d[j]),
        decreases n - i,
    {
        let c = s[i];
        assert(c == d[i - start]);
        if c < 48 || c > 57 {
            assert(!spec_all_digits(d));
            return None;
        }
        let next: u128 = acc as u128 * 10 + (c - 48) as u128;
        assert(d.take(i - start + 1).drop_last() =~= d.take(i - start));
        assert(next == decimal_value(d.take(i - start + 1)));
        if next > u64::MAX as u128 {
            proof {
                lemma_prefix_value_le(d, i - start + 1);
            }
            return None;
        }
        acc = next as u64;
        i += 1;
    }
    assert(d.take(n - start) =~= d);
    Some(acc)
}

/// The length announced by an optional `Content-Length` header value.
pub fn content_length(header: Option<&[u8]>) -> (r: Option<u64>)
    ensures
        r == spec_content_length(header_bytes(header)),
{
    match header {
        Some(v) => {
            if is_header_text(v) {
                parse_u64(v)
            } else {
                None
            }
        },
        None => None,
    }
}

} // verus!
