//! Decimal integers in text: reading them the way `str::parse` does, and
//! writing them the way `{}` and `{:02}` do.

use vstd::prelude::*;

verus! {

/// Whether `b` is an ASCII decimal digit.
pub open spec fn is_digit(b: u8) -> bool {
    48 <= b <= 57
}

/// Whether every byte of `s` is an ASCII decimal digit.
pub open spec fn all_digits(s: Seq<u8>) -> bool {
    forall|i: int| 0 <= i < s.len() ==> is_digit(#[trigger] s[i])
}

/// The value of a run of decimal digits, most significant first.
pub open spec fn digits_value(s: Seq<u8>) -> nat
    decreases s.len(),
{
    if s.len() == 0 {
        0
    } else {
        digits_value(s.drop_last()) * 10 + (s.last() - 48) as nat
    }
}

/// The integer written in `s`: an optional `+` (or, where `signed`, `-`)
/// followed by one or more decimal digits and nothing else.
pub open spec fn decimal_integer(s: Seq<u8>, signed: bool) -> Option<int> {
    if s.len() == 0 {
        None
    } else if s[0] == 43u8 || (signed && s[0] == 45u8) {
        let rest = s.drop_first();
        if rest.len() > 0 && all_digits(rest) {
            if s[0] == 45u8 {
                Some(-(digits_value(rest) as int))
            } else {
                Some(digits_value(rest) as int)
            }
        } else {
            None
        }
    } else if all_digits(s) {
        Some(digits_value(s) as int)
    } else {
        None
    }
}

/// What `<i32 as FromStr>::from_str` gives for the bytes `s`.
pub open spec fn parsed_i32(s: Seq<u8>) -> Option<i32> {
    match decimal_integer(s, true) {
        Some(v) => if i32::MIN <= v <= i32::MAX {
            Some(v as i32)
        } else {
            None
        },
        None => None,
    }
}

/// What `<u32 as FromStr>::from_str` gives for the bytes `s`.
pub open spec fn parsed_u32(s: Seq<u8>) -> Option<u32> {
    match decimal_integer(s, false) {
        Some(v) => if 0 <= v <= u32::MAX {
            Some(v as u32)
        } else {
            None
        },
        None => None,
    }
}

/// A longer run of digits is worth at least as much as its prefix.
proof fn lemma_digits_value_prefix(s: Seq<u8>, k: int)
    requires
        0 <= k <= s.len(),
        all_digits(s),
    ensures
        digits_value(s.take(k)) <= digits_value(s),
    decreases s.len() - k,
{
    if k < s.len() {
        lemma_digits_value_prefix(s, k + 1);
        assert(s.take(k + 1).drop_last() =~= s.take(k));
    } else {
        assert(s.take(k) =~= s);
    }
}

/// Above this bound no run of digits fits an `i32` or a `u32`.
const DIGITS_LIMIT: u64 = 4294967296;

/// Reads `bytes[start..end]` as a non-empty run of decimal digits, giving up
/// (with `None`) once the value passes `DIGITS_LIMIT`.
fn parse_digits(bytes: &[u8], start: usize, end: usize) -> (r: Option<u64>)
    requires
        start <= end <= bytes@.len(),
    ensures
        ({
            let sub = bytes@.subrange(start as int, end as int);
            match r {
                Some(v) => sub.len() > 0 && all_digits(sub) && v == digits_value(sub)
                    && v <= DIGITS_LIMIT,
                None => sub.len() == 0 || !all_digits(sub) || digits_value(sub) > DIGITS_LIMIT,
            }
        }),
{
    let ghost sub = bytes@.subrange(start as int, end as int);
    if start == end {
        return None;
    }
    let mut value: u64 = 0;
    let mut i: usize = start;
    while i < end
        invariant
            start <= i <= end <= bytes@.len(),
            sub == bytes@.subrange(start as int, end as int),
            all_digits(sub.take(i - start)),
            value == digits_value(sub.take(i - start)),
            value <= DIGITS_LIMIT,
        decreases end - i,
    {
        let b = bytes[i];
        assert(sub.take(i - start + 1).drop_last() =~= sub.take(i - start));
        if !(48 <= b && b <= 57) {
            assert(sub[i - start] == b);
            return None;
        }
        let next = value * 10 + (b - 48) as u64;
        if next > DIGITS_LIMIT {
            proof {
                assert(all_digits(sub.take(i - start + 1)));
                if all_digits(sub) {
                    lemma_digits_value_prefix(sub, i - start + 1);
                }
            }
            return None;
        }
        value = next;
        i = i + 1;
    }
    assert(sub.take(end - start) =~= sub);
    Some(value)
}

/// Reads `bytes[start..end]` as `<i32 as FromStr>::from_str` would.
pub fn parse_i32_bytes(bytes: &[u8], start: usize, end: usize) -> (r: Option<i32>)
    requires
        start <= end <= bytes@.len(),
    ensures
        r == parsed_i32(bytes@.subrange(start as int, end as int)),
{
    let ghost s = bytes@.subrange(start as int, end as int);
    if start == end {
        return None;
    }
    let first = bytes[start];
    if first == 43u8 || first == 45u8 {
        assert(s.drop_first() =~= bytes@.subrange(start + 1, end as int));
        match parse_digits(bytes, start + 1, end) {
            Some(v) => {
                if first == 45u8 {
                    if v <= 2147483648 {
                        Some((0i64 - v as i64) as i32)
                    } else {
                        None
                    }
                } else if v <= 2147483647 {
                    Some(v as i32)
                } else {
                    None
                }
            },
            None => None,
        }
    } else {
        match parse_digits(bytes, start, end) {
            Some(v) => if v <= 2147483647 {
                Some(v as i32)
            } else {
                None
            },
            None => None,
        }
    }
}

/// Reads `bytes[start..end]` as `<u32 as FromStr>::from_str` would.
pub fn parse_u32_bytes(bytes: &[u8], start: usize, end: usize) -> (r: Option<u32>)
    requires
        start <= end <= bytes@.len(),
    ensures
        r == parsed_u32(bytes@.subrange(start as int, end as int)),
{
    let ghost s = bytes@.subrange(start as int, end as int);
    if start == end {
        return None;
    }
    let first = bytes[start];
    if first == 43u8 {
        assert(s.drop_first() =~= bytes@.subrange(start + 1, end as int));
        match parse_digits(bytes, start + 1, end) {
            Some(v) => if v <= 4294967295 {
                Some(v as u32)
            } else {
                None
            },
            None => None,
        }
    } else {
        match parse_digits(bytes, start, end) {
            Some(v) => if v <= 4294967295 {
                Some(v as u32)
            } else {
                None
            },
            None => None,
        }
    }
}


/// The character of the decimal digit `d`.
pub open spec fn digit_char(d: nat) -> char {
    (48 + d) as char
}

/// `n` written in decimal without leading zeros, as `{}` writes it.
pub open spec fn decimal(n: nat) -> Seq<char>
    decreases n,
{
    if n < 10 {
        seq![digit_char(n)]
    } else {
        decimal(n / 10).push(digit_char(n % 10))
    }
}

/// `i` written in decimal with a leading `-` when negative, as `{}` writes it.
pub open spec fn signed_decimal(i: int) -> Seq<char> {
    if i < 0 {
        seq!['-'] + decimal((-i) as nat)
    } else {
        decimal(i as nat)
    }
}

/// `n` written in decimal and padded with zeros to two characters, as
/// `{:02}` writes it.
pub open spec fn two_digit_decimal(n: nat) -> Seq<char> {
    if n < 10 {
        seq!['0'] + decimal(n)
    } else {
        decimal(n)
    }
}

/// `s` followed by as many spaces as it takes to reach `width` characters,
/// as `{:<width$}` writes it.
pub open spec fn pad_right(s: Seq<char>, width: nat) -> Seq<char> {
    if s.len() >= width {
        s
    } else {
        s + Seq::new((width - s.len()) as nat, |i: int| ' ')
    }
}

/// The number of bytes that `s` takes in UTF-8, which `str::len` counts.
pub open spec fn utf8_len(s: Seq<char>) -> nat {
    vstd::utf8::encode_utf8(s).len()
}

/// The one-character string of the digit `d`.
fn digit_str(d: u64) -> (s: &'static str)
    requires
        d < 10,
    ensures
        s@ == seq![digit_char(d as nat)],
{
    if d == 0 {
        proof { reveal_strlit("0"); }
        "0"
    } else if d == 1 {
        proof { reveal_strlit("1"); }
        "1"
    } else if d == 2 {
        proof { reveal_strlit("2"); }
        "2"
    } else if d == 3 {
        proof { reveal_strlit("3"); }
        "3"
    } else if d == 4 {
        proof { reveal_strlit("4"); }
        "4"
    } else if d == 5 {
        proof { reveal_strlit("5"); }
        "5"
    } else if d == 6 {
        proof { reveal_strlit("6"); }
        "6"
    } else if d == 7 {
        proof { reveal_strlit("7"); }
        "7"
    } else if d == 8 {
        proof { reveal_strlit("8"); }
        "8"
    } else {
        proof { reveal_strlit("9"); }
        "9"
    }
}

/// Appends `n` in decimal to `out`.
pub fn push_decimal(out: &mut String, n: u64)
    ensures
        final(out)@ == old(out)@ + decimal(n as nat),
    decreases n,
{
    if n >= 10 {
        push_decimal(out, n / 10);
    }
    out.append(digit_str(n % 10));
    assert(decimal(n as nat) =~= if n < 10 {
        seq![digit_char(n as nat)]
    } else {
        decimal((n / 10) as nat).push(digit_char((n % 10) as nat))
    });
}

/// Appends `i` in decimal, with a `-` when negative, to `out`.
pub fn push_signed_decimal(out: &mut String, i: i32)
    ensures
        final(out)@ == old(out)@ + signed_decimal(i as int),
{
    if i < 0 {
        proof { reveal_strlit("-"); }
        out.append("-");
        let magnitude: i64 = 0i64 - i as i64;
        push_decimal(out, magnitude as u64);
        assert(final(out)@ =~= old(out)@ + signed_decimal(i as int));
    } else {
        push_decimal(out, i as u64);
    }
}

/// Appends `n` in decimal, padded with zeros to two characters, to `out`.
pub fn push_two_digit_decimal(out: &mut String, n: u32)
    ensures
        final(out)@ == old(out)@ + two_digit_decimal(n as nat),
{
    if n < 10 {
        proof { reveal_strlit("0"); }
        out.append("0");
    }
    push_decimal(out, n as u64);
    assert(final(out)@ =~= old(out)@ + two_digit_decimal(n as nat));
}

/// Appends `s` to `out`, followed by spaces up to `width` characters.
pub fn push_padded(out: &mut String, s: &str, width: usize)
    ensures
        final(out)@ == old(out)@ + pad_right(s@, width as nat),
{
    let ghost start = out@;
    out.append(s);
    let n = s.unicode_len();
    let mut k = n;
    while k < width
        invariant
            n == s@.len(),
            k >= n,
            n < width ==> k <= width,
            n < width ==> out@ == start + s@ + Seq::new((k - n) as nat, |i: int| ' '),
            n >= width ==> out@ == start + s@,
        decreases width - k,
    {
        proof { reveal_strlit(" "); }
        out.append(" ");
        k = k + 1;
        assert(out@ =~= start + s@ + Seq::new((k - n) as nat, |i: int| ' '));
    }
    proof {
        if n < width {
            assert(k == width);
        }
        assert(out@ =~= start + pad_right(s@, width as nat));
    }
}

/// Names the string that `str::to_lowercase` returns for a string: Unicode
/// lowercase mapping, character by character, with context rules such as
/// the final sigma.
pub uninterp spec fn unicode_lowercase(s: Seq<char>) -> Seq<char>;

/// Names the string that `str::to_uppercase` returns for a string: Unicode
/// uppercase mapping, character by character, where one character may
/// become several.
pub uninterp spec fn unicode_uppercase(s: Seq<char>) -> Seq<char>;

/// ASCII letters `A`..`Z` turned into `a`..`z`, every other character kept.
pub open spec fn ascii_lowercase(s: Seq<char>) -> Seq<char> {
    s.map_values(|c: char| if 65 <= (c as u32) <= 90 { ((c as u32) + 32) as char } else { c })
}

/// ASCII letters `a`..`z` turned into `A`..`Z`, every other character kept.
pub open spec fn ascii_uppercase(s: Seq<char>) -> Seq<char> {
    s.map_values(|c: char| if 97 <= (c as u32) <= 122 { ((c as u32) - 32) as char } else { c })
}

/// Calls `str::to_lowercase`. Its result is named `unicode_lowercase`; on
/// ASCII text the Unicode lowercase mapping is the ASCII one, which the
/// contract states. What it does with other characters is left unsaid.
#[verifier::external_body]
pub(crate) fn to_lowercase(s: &str) -> (r: String)
    ensures
        r@ == unicode_lowercase(s@),
        vstd::utf8::is_ascii_chars(s@) ==> r@ == ascii_lowercase(s@),
{
    s.to_lowercase()
}

/// Calls `str::to_uppercase`. Its result is named `unicode_uppercase`; on
/// ASCII text the Unicode uppercase mapping is the ASCII one, which the
/// contract states. What it does with other characters is left unsaid.
#[verifier::external_body]
pub(crate) fn to_uppercase(s: &str) -> (r: String)
    ensures
        r@ == unicode_uppercase(s@),
        vstd::utf8::is_ascii_chars(s@) ==> r@ == ascii_uppercase(s@),
{
    s.to_uppercase()
}

} // verus!
