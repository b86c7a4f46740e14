//! Port numbers as decimal text: reading one from an environment value and
//! writing one into an address.

use vstd::prelude::*;

verus! {

/// An ASCII decimal digit.
pub open spec fn is_digit(c: char) -> bool {
    '0' <= c && c <= '9'
}

/// The value of an ASCII decimal digit.
pub open spec fn digit_value(c: char) -> int {
    c as int - '0' as int
}

/// The character that writes the digit `d`, for `d < 10`.
pub open spec fn digit_char(d: nat) -> char {
    (d + '0' as int) as char
}

/// Every character of `s` is a decimal digit.
pub open spec fn all_digits(s: Seq<char>) -> bool {
    forall|i: int| 0 <= i < s.len() ==> #[trigger] is_digit(s[i])
}

/// The number that the digits `s` write, most significant first.
pub open spec fn digits_value(s: Seq<char>) -> nat
    decreases s.len(),
{
    if s.len() == 0 {
        0
    } else {
        (digits_value(s.drop_last()) * 10 + digit_value(s.last())) as nat
    }
}

/// The digits after an optional leading `+`.
pub open spec fn unsigned_part(s: Seq<char>) -> Seq<char> {
    if s.len() > 0 && s[0] == '+' {
        s.drop_first()
    } else {
        s
    }
}

/// What reading `s` as a `u16` gives: an optional `+`, then at least one
/// decimal digit and nothing else, for a value that fits in 16 bits.
pub open spec fn port_from_text(s: Seq<char>) -> Option<u16> {
    let d = unsigned_part(s);
    if d.len() > 0 && all_digits(d) && digits_value(d) <= u16::MAX {
        Some(digits_value(d) as u16)
    } else {
        None
    }
}

/// The shortest decimal text of `n`.
pub open spec fn decimal_text(n: nat) -> Seq<char>
    decreases n,
{
    if n < 10 {
        seq![digit_char(n)]
    } else {
        decimal_text(n / 10).push(digit_char(n % 10))
    }
}

/// Adding a digit at the end never makes the value smaller.
proof fn lemma_value_grows(s: Seq<char>)
    requires
        s.len() > 0,
        is_digit(s.last()),
    ensures
        digits_value(s) >= digits_value(s.drop_last()),
{
}

/// Reads a port number the way `u16`'s `FromStr` reads it.
pub fn parse_port(s: &str) -> (r: Option<u16>)
    ensures
        r == port_from_text(s@),
{
    let len = s.unicode_len();
    let mut start: usize = 0;
    if len > 0 && s.get_char(0) == '+' {
        start = 1;
    }
    let ghost d = unsigned_part(s@);
    assert(d =~= s@.subrange(start as int, len as int));
    if start == len {
        return None;
    }
    let mut value: u32 = 0;
    let mut i: usize = start;
    while i < len
        invariant
            start <= i <= len,
            len == s@.len(),
            d == s@.subrange(start as int, len as int),
            d == unsigned_part(s@),
            all_digits(d.subrange(0, i - start)),
            value == digits_value(d.subrange(0, i - start)),
            value <= u16::MAX,
        decreases len - i,
    {
        let c = s.get_char(i);
        let ghost prefix = d.subrange(0, i - start);
        let ghost next = d.subrange(0, i + 1 - start);
        assert(next.drop_last() =~= prefix);
        assert(next.last() == c);
        if c < '0' || c > '9' {
            assert(!is_digit(d[i - start]));
            return None;
        }
        let digit = (c as u32) - ('0' as u32);
        value = value * 10 + digit;
        assert(all_digits(next)) by {
            assert forall|j: int| 0 <= j < next.len() implies #[trigger] is_digit(next[j]) by {
                if j < prefix.len() {
                    assert(next[j] == prefix[j]);
                }
            }
        }
        if value > 65535 {
            proof {
                lemma_prefix_bound(d, (i + 1 - start) as int);
            }
            return None;
        }
        i = i + 1;
    }
    assert(d.subrange(0, len - start) =~= d);
    Some(value as u16)
}

/// Once a prefix of digits is past the 16-bit range, so is the whole.
proof fn lemma_prefix_bound(d: Seq<char>, k: int)
    requires
        0 <= k <= d.len(),
        digits_value(d.subrange(0, k)) > u16::MAX,
    ensures
        !(all_digits(d) && digits_value(d) <= u16::MAX),
    decreases d.len() - k,
{
    if k < d.len() && all_digits(d) {
        let next = d.subrange(0, k + 1);
        assert(next.drop_last() =~= d.subrange(0, k));
        assert(is_digit(next.last()));
        lemma_value_grows(next);
        lemma_prefix_bound(d, k + 1);
    } else if k == d.len() {
        assert(d.subrange(0, k) =~= d);
    }
}

/// The one-character text of a digit.
fn digit_str(d: u16) -> (r: &'static str)
    requires
        d < 10,
    ensures
        r@ == seq![digit_char(d as nat)],
{
    proof {
        reveal_strlit("0");
        reveal_strlit("1");
        reveal_strlit("2");
        reveal_strlit("3");
        reveal_strlit("4");
        reveal_strlit("5");
        reveal_strlit("6");
        reveal_strlit("7");
        reveal_strlit("8");
        reveal_strlit("9");
    }
    match d {
        0 => "0",
        1 => "1",
        2 => "2",
        3 => "3",
        4 => "4",
        5 => "5",
        6 => "6",
        7 => "7",
        8 => "8",
        _ => "9",
    }
}

/// Appends the decimal text of `n` to `out`.
pub(crate) fn push_decimal(out: &mut String, n: u16)
    ensures
        final(out)@ == old(out)@ + decimal_text(n as nat),
    decreases n,
{
    if n >= 10 {
        push_decimal(out, n / 10);
    }
    out.append(digit_str(n % 10));
    assert(decimal_text(n as nat) =~= if n < 10 {
        seq![digit_char(n as nat)]
    } else {
        decimal_text((n / 10) as nat).push(digit_char((n % 10) as nat))
    });
}

/// The decimal text of a port number.
pub fn port_to_string(port: u16) -> (r: String)
    ensures
        r@ == decimal_text(port as nat),
{
    let mut out = String::new();
    push_decimal(&mut out, port);
    assert(out@ =~= Seq::<char>::empty() + decimal_text(port as nat));
    out
}

} // verus!
