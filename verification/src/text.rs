//! Numbers as text: the decimal digits of the header values and the
//! lower-case hexadecimal of a byte dump.

use vstd::prelude::*;

verus! {

/// `String::push` of std: the string afterwards is the string before with
/// `ch` appended, as its documentation says.
pub assume_specification[ String::push ](s: &mut String, ch: char)
    ensures
        final(s)@ == old(s)@.push(ch),
;

/// The character of the decimal digit `d`.
pub open spec fn digit_char(d: int) -> char {
    (48 + d) as u8 as char
}

/// The decimal digits of `n`, most significant first, without leading zeros.
pub open spec fn decimal(n: nat) -> Seq<char>
    decreases n,
{
    if n < 10 {
        seq![digit_char(n as int)]
    } else {
        decimal(n / 10).push(digit_char((n % 10) as int))
    }
}

/// The decimal text of an integer: a minus sign before the digits of a
/// negative one.
pub open spec fn signed_decimal(v: int) -> Seq<char> {
    if v < 0 {
        seq!['-'] + decimal((-v) as nat)
    } else {
        decimal(v as nat)
    }
}

/// Whether `c` is one of `0` to `9`.
pub open spec fn is_digit(c: char) -> bool {
    '0' <= c && c <= '9'
}

/// The number that a run of decimal digits writes. It is meant for runs of
/// digits only.
pub open spec fn digits_value(s: Seq<char>) -> nat
    decreases s.len(),
{
    if s.len() == 0 {
        0
    } else {
        (digits_value(s.drop_last()) * 10 + (s.last() as int - 48)) as nat
    }
}

/// The digits of a number are digits, at least one of them, and they write
/// that number back.
pub proof fn lemma_decimal_value(n: nat)
    ensures
        decimal(n).len() >= 1,
        forall|i: int| 0 <= i < decimal(n).len() ==> is_digit(#[trigger] decimal(n)[i]),
        digits_value(decimal(n)) == n,
    decreases n,
{
    if n < 10 {
        let s = decimal(n);
        assert(s.drop_last() =~= Seq::<char>::empty());
        assert(digits_value(s.drop_last()) == 0);
    } else {
        lemma_decimal_value(n / 10);
        let s = decimal(n);
        assert(s.drop_last() =~= decimal(n / 10));
    }
}

/// The decimal text of an integer holds neither a carriage return nor a line
/// feed.
pub proof fn lemma_signed_decimal_one_line(v: int)
    ensures
        forall|i: int|
            0 <= i < signed_decimal(v).len() ==> #[trigger] signed_decimal(v)[i] != '\r'
                && signed_decimal(v)[i] != '\n',
{
    if v < 0 {
        lemma_decimal_value((-v) as nat);
        let d = decimal((-v) as nat);
        assert forall|i: int| 0 <= i < signed_decimal(v).len() implies #[trigger] signed_decimal(
            v,
        )[i] != '\r' && signed_decimal(v)[i] != '\n' by {
            if i > 0 {
                assert(signed_decimal(v)[i] == d[i - 1]);
                assert(is_digit(d[i - 1]));
            }
        }
    } else {
        lemma_decimal_value(v as nat);
        let d = decimal(v as nat);
        assert forall|i: int| 0 <= i < signed_decimal(v).len() implies #[trigger] signed_decimal(
            v,
        )[i] != '\r' && signed_decimal(v)[i] != '\n' by {
            assert(is_digit(d[i]));
        }
    }
}

/// Appends the decimal digits of `n` to `out`.
pub fn push_decimal(out: &mut String, n: u64)
    ensures
        final(out)@ == old(out)@ + decimal(n as nat),
    decreases n,
{
    if n >= 10 {
        push_decimal(out, n / 10);
    }
    let d: u8 = (n % 10) as u8;
    out.push((48u8 + d) as char);
    assert(final(out)@ =~= old(out)@ + decimal(n as nat));
}

/// Appends the decimal text of `v` to `out`.
pub fn push_signed_decimal(out: &mut String, v: i64)
    ensures
        final(out)@ == old(out)@ + signed_decimal(v as int),
{
    if v < 0 {
        out.push('-');
        let magnitude: u64 = (-(v as i128)) as u64;
        push_decimal(out, magnitude);
        assert(final(out)@ =~= old(out)@ + signed_decimal(v as int));
    } else {
        push_decimal(out, v as u64);
    }
}

/// The character of the hexadecimal digit `d`, in lower case.
pub open spec fn hex_digit_char(d: int) -> char {
    if d < 10 {
        digit_char(d)
    } else {
        (87 + d) as u8 as char
    }
}

/// Two lower-case hexadecimal digits for each byte, the high one first.
pub open spec fn hex_text(data: Seq<u8>) -> Seq<char> {
    Seq::new(
        2 * data.len(),
        |i: int|
            if i % 2 == 0 {
                hex_digit_char(data[i / 2] as int / 16)
            } else {
                hex_digit_char(data[i / 2] as int % 16)
            },
    )
}

/// The character of the hexadecimal digit `d`.
fn hex_digit(d: u8) -> (c: char)
    requires
        d < 16,
    ensures
        c == hex_digit_char(d as int),
{
    if d < 10 {
        (48u8 + d) as char
    } else {
        (87u8 + d) as char
    }
}

/// The bytes of `data` written as lower-case hexadecimal, two digits each.
pub fn hex_string(data: &[u8]) -> (text: String)
    ensures
        text@ == hex_text(data@),
{
    let mut text = String::new();
    let mut i: usize = 0;
    while i < data.len()
        invariant
            i <= data.len(),
            text@ == hex_text(data@.take(i as int)),
        decreases data.len() - i,
    {
        let b: u8 = data[i];
        text.push(hex_digit(b / 16));
        text.push(hex_digit(b % 16));
        assert(text@ =~= hex_text(data@.take(i + 1)));
        i = i + 1;
    }
    assert(data@.take(i as int) =~= data@);
    text
}

} // verus!
