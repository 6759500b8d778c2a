//! Decimal numerals of 32-bit integers.

use crate::text::chars_of;
use vstd::prelude::*;
use vstd::string::StringExecFns;

verus! {

pub open spec fn is_digit(c: char) -> bool {
    '0' <= c <= '9'
}

/// The value of the digit `c`.
pub open spec fn digit_value(c: char) -> int {
    c as u32 - '0' as u32
}

/// The digit whose value is `d`.
pub open spec fn digit_char(d: int) -> char {
    if d == 0 {
        '0'
    } else if d == 1 {
        '1'
    } else if d == 2 {
        '2'
    } else if d == 3 {
        '3'
    } else if d == 4 {
        '4'
    } else if d == 5 {
        '5'
    } else if d == 6 {
        '6'
    } else if d == 7 {
        '7'
    } else if d == 8 {
        '8'
    } else {
        '9'
    }
}

pub open spec fn all_digits(s: Seq<char>) -> bool {
    forall|i: int| 0 <= i < s.len() ==> is_digit(#[trigger] s[i])
}

/// The number that the digits `s` write, the first digit weighing most.
pub open spec fn digits_value(s: Seq<char>) -> int
    decreases s.len(),
{
    if s.len() == 0 {
        0
    } else {
        digits_value(s.drop_last()) * 10 + digit_value(s.last())
    }
}

/// The integer that `s` writes: one or more digits, after at most one
/// sign, `+` or `-`. `None` for any other text.
pub open spec fn numeral_value(s: Seq<char>) -> Option<int> {
    if s.len() > 0 && (s[0] == '-' || s[0] == '+') {
        let digits = s.skip(1);
        if digits.len() > 0 && all_digits(digits) {
            Some(
                if s[0] == '-' {
                    -digits_value(digits)
                } else {
                    digits_value(digits)
                },
            )
        } else {
            None
        }
    } else if s.len() > 0 && all_digits(s) {
        Some(digits_value(s))
    } else {
        None
    }
}

/// The 32-bit integer that `s` writes, `None` where it writes none.
pub open spec fn numeral_i32(s: Seq<char>) -> Option<i32> {
    match numeral_value(s) {
        Some(n) => if i32::MIN <= n <= i32::MAX {
            Some(n as i32)
        } else {
            None
        },
        None => None,
    }
}

/// The digits of `n`, without leading zeros.
pub open spec fn digits_of(n: nat) -> Seq<char>
    decreases n,
{
    if n < 10 {
        seq![digit_char(n as int)]
    } else {
        digits_of(n / 10).push(digit_char((n % 10) as int))
    }
}

/// The decimal numeral of `n`.
pub open spec fn decimal(n: int) -> Seq<char> {
    if n < 0 {
        seq!['-'] + digits_of((-n) as nat)
    } else {
        digits_of(n as nat)
    }
}

/// Digits have a value that does not shrink as digits are added.
pub proof fn lemma_digits_value_grows(s: Seq<char>)
    requires
        s.len() > 0,
        all_digits(s),
    ensures
        0 <= digits_value(s.drop_last()) <= digits_value(s),
    decreases s.len(),
{
    let front = s.drop_last();
    if front.len() > 0 {
        assert(all_digits(front)) by {
            assert forall|i: int| 0 <= i < front.len() implies is_digit(#[trigger] front[i]) by {
                assert(front[i] == s[i]);
            }
        }
        lemma_digits_value_grows(front);
    }
    assert(is_digit(s.last()));
}

/// Reads a 32-bit integer from `s`.
pub fn parse_i32(s: &str) -> (r: Option<i32>)
    ensures
        r == numeral_i32(s@),
{
    let v = chars_of(s);
    let n = v.len();
    if n == 0 {
        return None;
    }
    let negative = v[0] == '-';
    let start: usize = if v[0] == '-' || v[0] == '+' {
        1
    } else {
        0
    };
    if start == n {
        return None;
    }
    let ghost digits = v@.skip(start as int);
    let mut acc: i64 = 0;
    let mut over = false;
    let mut i: usize = start;
    while i < n
        invariant
            n == v.len(),
            v@ == s@,
            start <= i <= n,
            start < n,
            start == (if v[0] == '-' || v[0] == '+' {
                1usize
            } else {
                0usize
            }),
            negative == (v[0] == '-'),
            digits == v@.skip(start as int),
            all_digits(digits.take(i - start)),
            0 <= acc <= 0x8000_0000,
            !over ==> acc == digits_value(digits.take(i - start)),
            over ==> digits_value(digits.take(i - start)) > 0x8000_0000,
        decreases n - i,
    {
        let c = v[i];
        let ghost before = digits.take(i - start);
        let ghost after = digits.take(i + 1 - start);
        proof {
            assert(after.drop_last() == before);
            assert(after.last() == c);
        }
        if !(c >= '0' && c <= '9') {
            proof {
                assert(digits[i - start] == c);
                assert(!all_digits(digits));
                assert(start == 0 ==> digits == v@);
            }
            return None;
        }
        proof {
            assert(all_digits(after)) by {
                assert forall|j: int| 0 <= j < after.len() implies is_digit(#[trigger] after[j]) by {
                    if j < before.len() {
                        assert(after[j] == before[j]);
                    }
                }
            }
            lemma_digits_value_grows(after);
        }
        if !over {
            let d: i64 = (c as u32 - '0' as u32) as i64;
            let next: i64 = acc * 10 + d;
            if next > 0x8000_0000 {
                over = true;
            } else {
                acc = next;
            }
        }
        i += 1;
    }
    proof {
        assert(digits.take(n - start) == digits);
        assert(start == 0 ==> digits == v@);
    }
    if over {
        None
    } else if negative {
        Some((-acc) as i32)
    } else if acc <= 0x7fff_ffff {
        Some(acc as i32)
    } else {
        None
    }
}

fn digit_str(d: u32) -> (r: &'static str)
    requires
        d < 10,
    ensures
        r@ == seq![digit_char(d as int)],
{
    proof {
        reveal_strlit("0");
        reveal_strlit("1");
        reveal_strlit("2");
        reveal_strlit("3");
        reveal_strlit("4");
        reveal_strlit("5");
        reveal_strlit("6");
        reveal_strlit("7");
        reveal_strlit("8");
        reveal_strlit("9");
    }
    let r = match d {
        0 => "0",
        1 => "1",
        2 => "2",
        3 => "3",
        4 => "4",
        5 => "5",
        6 => "6",
        7 => "7",
        8 => "8",
        _ => "9",
    };
    assert(r@ =~= seq![digit_char(d as int)]);
    r
}

fn push_digits(n: u32, out: &mut String)
    ensures
        final(out)@ == old(out)@ + digits_of(n as nat),
    decreases n,
{
    if n >= 10 {
        push_digits(n / 10, out);
    }
    out.append(digit_str(n % 10));
    proof {
        let tail = seq![digit_char((n % 10) as int)];
        if n >= 10 {
            assert(digits_of(n as nat) == digits_of((n / 10) as nat).push(
                digit_char((n % 10) as int),
            ));
            assert(old(out)@ + digits_of((n / 10) as nat) + tail =~= old(out)@ + digits_of(
                n as nat,
            ));
        }
    }
}

/// Writes `n` in decimal.
pub fn format_i32(n: i32) -> (r: String)
    ensures
        r@ == decimal(n as int),
{
    let mut out = String::new();
    if n < 0 {
        proof {
            reveal_strlit("-");
        }
        out.append("-");
        assert(out@ =~= seq!['-']);
        push_digits((-(n as i64)) as u32, &mut out);
    } else {
        push_digits(n as u32, &mut out);
        assert(out@ =~= digits_of(n as nat));
    }
    out
}

/// The digits of `n` are digits, at least one, and write `n`.
pub proof fn lemma_digits_of(n: nat)
    ensures
        digits_of(n).len() > 0,
        all_digits(digits_of(n)),
        digits_value(digits_of(n)) == n,
    decreases n,
{
    if n < 10 {
        let s = digits_of(n);
        assert(s.drop_last().len() == 0);
        assert(digits_value(s) == digits_value(s.drop_last()) * 10 + digit_value(s.last()));
    } else {
        lemma_digits_of(n / 10);
        let front = digits_of(n / 10);
        let s = digits_of(n);
        assert(s == front.push(digit_char((n % 10) as int)));
        assert(s.drop_last() == front);
        assert forall|i: int| 0 <= i < s.len() implies is_digit(#[trigger] s[i]) by {
            if i < front.len() {
                assert(s[i] == front[i]);
            }
        }
    }
}

/// Reading the decimal numeral of a 32-bit integer gives that integer.
pub proof fn lemma_decimal_reads_back(n: i32)
    ensures
        numeral_i32(decimal(n as int)) == Some(n),
{
    if n < 0 {
        let m = (-(n as int)) as nat;
        lemma_digits_of(m);
        let s = decimal(n as int);
        assert(s.skip(1) == digits_of(m));
    } else {
        lemma_digits_of(n as nat);
        let s = decimal(n as int);
        assert(is_digit(s[0]));
    }
}

} // verus!
