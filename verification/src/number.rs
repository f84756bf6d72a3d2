//! Numbers written as text: reading digits in a radix and writing decimals.

use vstd::prelude::*;
use vstd::slice::slice_subrange;

verus! {

/// The value of `c` as a digit in `radix`, where it is one: `0` to `9` stand
/// for themselves, and the letters, in either case, for ten and up.
pub open spec fn digit_of(c: char, radix: nat) -> Option<nat> {
    let v: int = if '0' <= c <= '9' {
        c as int - 48
    } else if 'a' <= c <= 'z' {
        c as int - 97 + 10
    } else if 'A' <= c <= 'Z' {
        c as int - 65 + 10
    } else {
        -1
    };
    if 0 <= v < radix {
        Some(v as nat)
    } else {
        None
    }
}

/// Computes `digit_of`.
pub fn digit_value(c: char, radix: u32) -> (r: Option<u32>)
    requires
        radix <= 36,
    ensures
        match r {
            Some(v) => digit_of(c, radix as nat) == Some(v as nat),
            None => digit_of(c, radix as nat) is None,
        },
{
    let code: u32 = c as u32;
    let v: u32 = if '0' <= c && c <= '9' {
        code - 48
    } else if 'a' <= c && c <= 'z' {
        code - 97 + 10
    } else if 'A' <= c && c <= 'Z' {
        code - 65 + 10
    } else {
        return None;
    };
    if v < radix {
        Some(v)
    } else {
        None
    }
}

/// Whether every character of `s` is a digit in `radix`.
pub open spec fn all_digits(s: Seq<char>, radix: nat) -> bool {
    forall|i: int| 0 <= i < s.len() ==> (#[trigger] digit_of(s[i], radix)) is Some
}

/// The number that the digits `s` write in `radix`, most significant first.
pub open spec fn number(s: Seq<char>, radix: nat) -> nat
    decreases s.len(),
{
    if s.len() == 0 {
        0
    } else {
        number(s.drop_last(), radix) * radix + match digit_of(s.last(), radix) {
            Some(v) => v,
            None => 0,
        }
    }
}

/// A longer run of digits writes no smaller number than its beginning.
pub proof fn lemma_number_grows(s: Seq<char>, radix: nat, k: int)
    requires
        radix >= 1,
        0 <= k <= s.len(),
    ensures
        number(s.take(k), radix) <= number(s, radix),
    decreases s.len() - k,
{
    if k == s.len() {
        assert(s.take(k) == s);
    } else {
        let t = s.drop_last();
        lemma_number_grows(t, radix, k);
        assert(t.take(k) == s.take(k));
        let a = number(t, radix);
        assert(a * radix >= a) by (nonlinear_arith)
            requires
                radix >= 1,
                a >= 0,
        ;
    }
}

/// The number that `s` writes in `radix`, where `s` is one digit or more and
/// the number is at most `max`.
pub open spec fn digits_value(s: Seq<char>, radix: nat, max: nat) -> Option<nat> {
    if s.len() > 0 && all_digits(s, radix) && number(s, radix) <= max {
        Some(number(s, radix))
    } else {
        None
    }
}

/// Computes `digits_value`.
pub fn read_digits(s: &[char], radix: u32, max: u64) -> (r: Option<u64>)
    requires
        1 <= radix <= 36,
        max <= 0xffff_ffff,
    ensures
        match r {
            Some(v) => digits_value(s@, radix as nat, max as nat) == Some(v as nat),
            None => digits_value(s@, radix as nat, max as nat) is None,
        },
{
    if s.len() == 0 {
        return None;
    }
    let mut acc: u64 = 0;
    let mut i: usize = 0;
    while i < s.len()
        invariant
            1 <= radix <= 36,
            max <= 0xffff_ffff,
            i <= s.len(),
            acc <= max,
            all_digits(s@.take(i as int), radix as nat),
            number(s@.take(i as int), radix as nat) == acc,
        decreases s.len() - i,
    {
        let ghost head = s@.take(i + 1);
        assert(head.drop_last() == s@.take(i as int));
        assert(head.last() == s@[i as int]);
        match digit_value(s[i], radix) {
            None => {
                assert(!all_digits(s@, radix as nat));
                return None;
            },
            Some(v) => {
                assert(acc * radix <= 0xffff_ffff * 36) by (nonlinear_arith)
                    requires
                        acc <= 0xffff_ffff,
                        radix <= 36,
                ;
                let next: u64 = acc * (radix as u64) + (v as u64);
                assert(number(head, radix as nat) == next);
                if next > max {
                    proof {
                        lemma_number_grows(s@, radix as nat, i + 1);
                    }
                    return None;
                }
                assert forall|j: int| 0 <= j < head.len() implies (#[trigger] digit_of(
                    head[j],
                    radix as nat,
                )) is Some by {
                    if j < i {
                        assert(head[j] == s@.take(i as int)[j]);
                    }
                }
                acc = next;
            },
        }
        i += 1;
    }
    assert(s@.take(i as int) == s@);
    Some(acc)
}

/// The number that `s` writes in `radix` with an optional `+` before its
/// digits, where it is at most `max`.
pub open spec fn unsigned_value(s: Seq<char>, radix: nat, max: nat) -> Option<nat> {
    if s.len() > 0 && s[0] == '+' {
        digits_value(s.drop_first(), radix, max)
    } else {
        digits_value(s, radix, max)
    }
}

/// Computes `unsigned_value` for 32 bits.
pub fn read_u32(s: &[char], radix: u32) -> (r: Option<u32>)
    requires
        1 <= radix <= 36,
    ensures
        match r {
            Some(v) => unsigned_value(s@, radix as nat, 0xffff_ffff) == Some(v as nat),
            None => unsigned_value(s@, radix as nat, 0xffff_ffff) is None,
        },
{
    let digits = if s.len() > 0 && s[0] == '+' {
        slice_subrange(s, 1, s.len())
    } else {
        s
    };
    match read_digits(digits, radix, 0xffff_ffff) {
        Some(v) => Some(v as u32),
        None => None,
    }
}

/// The integer that `s` writes in decimal with an optional `+` or `-` before
/// its digits, where it lies between `low` and `high`.
pub open spec fn signed_value(s: Seq<char>, low: int, high: int) -> Option<int> {
    if s.len() > 0 && s[0] == '-' {
        match digits_value(s.drop_first(), 10, (-low) as nat) {
            Some(v) => Some(-(v as int)),
            None => None,
        }
    } else if s.len() > 0 && s[0] == '+' {
        match digits_value(s.drop_first(), 10, high as nat) {
            Some(v) => Some(v as int),
            None => None,
        }
    } else {
        match digits_value(s, 10, high as nat) {
            Some(v) => Some(v as int),
            None => None,
        }
    }
}

/// Computes `signed_value` for 16 bits.
pub fn read_i16(s: &[char]) -> (r: Option<i16>)
    ensures
        match r {
            Some(v) => signed_value(s@, -32768, 32767) == Some(v as int),
            None => signed_value(s@, -32768, 32767) is None,
        },
{
    if s.len() > 0 && s[0] == '-' {
        match read_digits(slice_subrange(s, 1, s.len()), 10, 32768) {
            Some(v) => Some((0 - (v as i32)) as i16),
            None => None,
        }
    } else if s.len() > 0 && s[0] == '+' {
        match read_digits(slice_subrange(s, 1, s.len()), 10, 32767) {
            Some(v) => Some(v as i16),
            None => None,
        }
    } else {
        match read_digits(s, 10, 32767) {
            Some(v) => Some(v as i16),
            None => None,
        }
    }
}

/// The character that writes the digit `d`.
pub open spec fn digit_char(d: nat) -> char {
    (48 + d) as char
}

/// `n` written in decimal, without leading zeros.
pub open spec fn decimal(n: nat) -> Seq<char>
    decreases n,
{
    if n < 10 {
        seq![digit_char(n)]
    } else {
        decimal(n / 10).push(digit_char(n % 10))
    }
}

/// `n` written in decimal, with `-` before a negative number.
pub open spec fn signed_decimal(n: int) -> Seq<char> {
    if n < 0 {
        seq!['-'] + decimal((-n) as nat)
    } else {
        decimal(n as nat)
    }
}

/// Appends `n` in decimal to `out`.
pub fn push_decimal(out: &mut String, n: u64)
    ensures
        final(out)@ == old(out)@ + decimal(n as nat),
    decreases n,
{
    if n >= 10 {
        push_decimal(out, n / 10);
    }
    let d: u8 = (n % 10) as u8;
    out.push((48u8 + d) as char);
}

/// Appends `n` in decimal to `out`, with `-` before a negative number.
pub fn push_signed_decimal(out: &mut String, n: i16)
    ensures
        final(out)@ == old(out)@ + signed_decimal(n as int),
{
    if n < 0 {
        out.push('-');
        let m: u64 = (0 - (n as i32)) as u64;
        push_decimal(out, m);
        assert(out@ == old(out)@ + (seq!['-'] + decimal((-n) as nat)));
    } else {
        push_decimal(out, n as u64);
    }
}

} // verus!
