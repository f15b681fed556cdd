//! Decimal numbers as text: reading one from a setting, writing one into a URL.

use vstd::prelude::*;
use vstd::string::StringExecFns;

verus! {

/// The value of a decimal digit; nothing for any other character.
pub open spec fn digit_value(c: char) -> Option<nat> {
    if '0' as u32 <= c as u32 <= '9' as u32 {
        Some((c as u32 - '0' as u32) as nat)
    } else {
        None
    }
}

/// The number that a run of decimal digits writes; nothing for the empty run
/// and for a run with another character in it.
pub open spec fn digits_value(s: Seq<char>) -> Option<nat>
    decreases s.len(),
{
    if s.len() == 0 {
        None
    } else {
        match digit_value(s.last()) {
            None => None,
            Some(d) => if s.len() == 1 {
                Some(d)
            } else {
                match digits_value(s.drop_last()) {
                    None => None,
                    Some(v) => Some(v * 10 + d),
                }
            },
        }
    }
}

/// The digits of a number text: the text itself, or what follows one leading `+`.
pub open spec fn unsigned_body(s: Seq<char>) -> Seq<char> {
    if s.len() > 0 && s[0] == '+' {
        s.skip(1)
    } else {
        s
    }
}

/// The number that a text writes in decimal, if it writes one that is at
/// most `max`: an optional `+`, then one or more digits, and nothing else.
pub open spec fn decimal_up_to(s: Seq<char>, max: u64) -> Option<u64> {
    match digits_value(unsigned_body(s)) {
        Some(v) => if v <= max {
            Some(v as u64)
        } else {
            None
        },
        None => None,
    }
}

/// The character of a decimal digit.
pub open spec fn digit_char(d: nat) -> char
    recommends
        d < 10,
{
    ('0' as u32 + d as u32) as char
}

/// A number written in decimal, without sign or leading zeros.
pub open spec fn decimal_text(n: nat) -> Seq<char>
    decreases n,
{
    if n < 10 {
        seq![digit_char(n)]
    } else {
        decimal_text(n / 10).push(digit_char(n % 10))
    }
}

/// A run of digits that is too large or is no number stays so when it goes on.
proof fn lemma_digits_grow(s: Seq<char>, k: int, max: u64)
    requires
        0 < k <= s.len(),
        match digits_value(s.take(k)) {
            Some(v) => v > max,
            None => true,
        },
    ensures
        match digits_value(s) {
            Some(v) => v > max,
            None => true,
        },
    decreases s.len() - k,
{
    if k < s.len() {
        assert(s.take(k + 1).drop_last() =~= s.take(k));
        lemma_digits_grow(s, k + 1, max);
    } else {
        assert(s.take(k) =~= s);
    }
}

fn digit_of(c: char) -> (r: Option<u8>)
    ensures
        match r {
            Some(d) => digit_value(c) == Some(d as nat) && d < 10,
            None => digit_value(c) is None,
        },
{
    let code: u32 = c as u32;
    if 48 <= code && code <= 57 {
        Some((code - 48) as u8)
    } else {
        None
    }
}

/// Reads a decimal number of at most `max` from `s`. Yields nothing for a
/// text that is no such number: an empty one, one with a character that is
/// no digit (a sign other than one leading `+`, a blank, an underscore), or
/// one that writes a larger number.
pub fn parse_decimal(s: &str, max: u64) -> (r: Option<u64>)
    ensures
        r == decimal_up_to(s@, max),
{
    let n = s.unicode_len();
    if n == 0 {
        return None;
    }
    let start: usize = if s.get_char(0) == '+' {
        1
    } else {
        0
    };
    let ghost body = unsigned_body(s@);
    if start == n {
        return None;
    }
    let mut acc: u64 = 0;
    let mut i: usize = start;
    while i < n
        invariant
            start <= i <= n,
            n == s@.len(),
            start == 0 || start == 1,
            body == s@.skip(start as int),
            body == unsigned_body(s@),
            acc <= max,
            i > start ==> digits_value(body.take(i - start)) == Some(acc as nat),
            i == start ==> acc == 0,
        decreases n - i,
    {
        let c = s.get_char(i);
        let ghost k = i - start;
        proof {
            assert(body[k] == c);
            assert(body.take(k + 1).last() == c);
            assert(body.take(k + 1).drop_last() =~= body.take(k));
        }
        match digit_of(c) {
            None => {
                proof {
                    assert(body.take(k + 1).len() == k + 1);
                    assert(digits_value(body.take(k + 1)) is None);
                    lemma_digits_grow(body, k + 1, max);
                }
                return None;
            },
            Some(d) => {
                if (d as u64) > max || acc > (max - d as u64) / 10 {
                    proof {
                        assert(body.take(k + 1).len() == k + 1);
                        assert(acc * 10 + d > max) by (nonlinear_arith)
                            requires
                                acc > (max - d) / 10 || d > max,
                                d < 10,
                        ;
                        lemma_digits_grow(body, k + 1, max);
                    }
                    return None;
                }
                assert(acc * 10 + d <= max) by (nonlinear_arith)
                    requires
                        acc <= (max - d) / 10,
                        d <= max,
                ;
                acc = acc * 10 + d as u64;
            },
        }
        i += 1;
    }
    proof {
        assert(body.take(n - start) =~= body);
    }
    Some(acc)
}

fn digit_str(d: u8) -> (r: &'static str)
    requires
        d < 10,
    ensures
        r@ == seq![digit_char(d as nat)],
{
    proof {
        reveal_strlit("0");
        reveal_strlit("1");
        reveal_strlit("2");
        reveal_strlit("3");
        reveal_strlit("4");
        reveal_strlit("5");
        reveal_strlit("6");
        reveal_strlit("7");
        reveal_strlit("8");
        reveal_strlit("9");
    }
    let r = match d {
        0 => "0",
        1 => "1",
        2 => "2",
        3 => "3",
        4 => "4",
        5 => "5",
        6 => "6",
        7 => "7",
        8 => "8",
        _ => "9",
    };
    assert(r@ =~= seq![digit_char(d as nat)]);
    r
}

/// Writes `n` in decimal at the end of `out`.
pub fn push_decimal(out: &mut String, n: u64)
    ensures
        final(out)@ == old(out)@ + decimal_text(n as nat),
    decreases n,
{
    if n >= 10 {
        push_decimal(out, n / 10);
    }
    let d = (n % 10) as u8;
    out.append(digit_str(d));
    proof {
        if n >= 10 {
            assert(old(out)@ + decimal_text((n / 10) as nat) + seq![digit_char((n % 10) as nat)]
                =~= old(out)@ + decimal_text(n as nat));
        }
    }
}

} // verus!
