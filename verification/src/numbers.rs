//! Decimal text for `i32`: formatting a number into a reply, and parsing
//! free-text message bodies as numbers.
//!
//! The grammar for parsing is the one the state machine documents for its
//! users: an optional `+` or `-` sign followed by one or more ASCII digits,
//! and nothing else; the value must fit in `i32`.

use vstd::prelude::*;
use vstd::string::StrSliceExecFns;
use vstd::string::StringExecFns;

verus! {

/// The ASCII digit character for `d`.
pub open spec fn digit_char(d: nat) -> char
    recommends
        d < 10,
{
    (48 + d) as char
}

/// True of an ASCII digit character.
pub open spec fn is_digit_char(c: char) -> bool {
    48 <= c as int <= 57
}

/// The value of an ASCII digit character.
pub open spec fn digit_val(c: char) -> int {
    c as int - 48
}

/// The decimal digit string of `n`, without sign and without leading zeros.
pub open spec fn spec_udec(n: nat) -> Seq<char>
    decreases n,
{
    if n < 10 {
        seq![digit_char(n)]
    } else {
        spec_udec(n / 10) + seq![digit_char(n % 10)]
    }
}

/// The decimal rendering of `n`, a `-` sign ahead of a negative value.
pub open spec fn spec_i32_chars(n: int) -> Seq<char>
    recommends
        i32::MIN <= n <= i32::MAX,
{
    if n < 0 {
        seq!['-'] + spec_udec((-n) as nat)
    } else {
        spec_udec(n as nat)
    }
}

/// The value of a non-empty all-digit string, leading zeros allowed.
pub open spec fn digits_val(s: Seq<char>) -> int
    decreases s.len(),
{
    if s.len() == 0 {
        0
    } else {
        digits_val(s.drop_last()) * 10 + digit_val(s.last())
    }
}

/// True of a non-empty string of ASCII digits.
pub open spec fn all_digits(s: Seq<char>) -> bool {
    s.len() > 0 && forall|i: int| 0 <= i < s.len() ==> is_digit_char(#[trigger] s[i])
}

/// The integer a piece of text denotes: an optional sign followed by one or
/// more digits and nothing else; `None` for anything else.
pub open spec fn spec_int_of(s: Seq<char>) -> Option<int> {
    if s.len() > 0 && s[0] == '+' && all_digits(s.skip(1)) {
        Some(digits_val(s.skip(1)))
    } else if s.len() > 0 && s[0] == '-' && all_digits(s.skip(1)) {
        Some(-digits_val(s.skip(1)))
    } else if all_digits(s) {
        Some(digits_val(s))
    } else {
        None
    }
}

/// What parsing text as an `i32` yields: the denoted integer when there is
/// one and it fits, `None` otherwise.
pub open spec fn spec_parse_i32(s: Seq<char>) -> Option<i32> {
    match spec_int_of(s) {
        Some(v) => if i32::MIN <= v <= i32::MAX {
            Some(v as i32)
        } else {
            None
        },
        None => None,
    }
}

/// A digit string's value is nonnegative.
proof fn lemma_digits_val_nonneg(s: Seq<char>)
    requires
        forall|i: int| 0 <= i < s.len() ==> is_digit_char(#[trigger] s[i]),
    ensures
        digits_val(s) >= 0,
    decreases s.len(),
{
    if s.len() > 0 {
        lemma_digits_val_nonneg(s.drop_last());
    }
}

/// Extending a digit string by one digit multiplies its value by ten and
/// adds the digit.
proof fn lemma_digits_val_take(s: Seq<char>, i: int)
    requires
        0 <= i < s.len(),
    ensures
        digits_val(s.take(i + 1)) == digits_val(s.take(i)) * 10 + digit_val(s[i]),
{
    assert(s.take(i + 1).drop_last() =~= s.take(i));
    assert(s.take(i + 1).last() == s[i]);
}

/// A digit string's value only grows as more digits follow.
proof fn lemma_digits_val_monotone(s: Seq<char>, i: int)
    requires
        forall|j: int| 0 <= j < s.len() ==> is_digit_char(#[trigger] s[j]),
        0 <= i <= s.len(),
    ensures
        digits_val(s) >= digits_val(s.take(i)),
    decreases s.len() - i,
{
    if i == s.len() {
        assert(s.take(i) =~= s);
    } else {
        lemma_digits_val_take(s, i);
        lemma_digits_val_nonneg(s.take(i));
        lemma_digits_val_monotone(s, i + 1);
    }
}

/// The unsigned decimal value of the characters of `s` from `from` on;
/// `None` when a non-digit appears, when no digit is there at all, or when
/// the value leaves the `i32` magnitude range.
fn accumulate_digits(s: &str, from: usize, n: usize) -> (r: Option<u32>)
    requires
        n == s@.len(),
        from <= n,
    ensures
        match r {
            Some(acc) => {
                &&& all_digits(s@.skip(from as int))
                &&& acc == digits_val(s@.skip(from as int))
                &&& acc <= 0x8000_0000u32
            },
            None => {
                ||| !all_digits(s@.skip(from as int))
                ||| digits_val(s@.skip(from as int)) > 0x8000_0000
            },
        },
{
    let ghost tail = s@.skip(from as int);
    if from == n {
        return None;
    }
    let mut acc: u64 = 0;
    let mut i: usize = from;
    while i < n
        invariant
            n == s@.len(),
            from <= i <= n,
            from < n,
            tail == s@.skip(from as int),
            forall|j: int| from <= j < i ==> is_digit_char(#[trigger] s@[j]),
            acc == digits_val(tail.take(i - from)),
            acc <= 0x8000_0000u64,
        decreases n - i,
    {
        let c = s.get_char(i);
        let b = c as u32;
        if !(48 <= b && b <= 57) {
            proof {
                assert(tail[i - from] == s@[i as int]);
                assert(!all_digits(tail));
            }
            return None;
        }
        let d: u64 = (b - 48) as u64;
        proof {
            assert(is_digit_char(s@[i as int]));
            assert(tail[i - from] == s@[i as int]);
            lemma_digits_val_take(tail, i - from);
        }
        acc = acc * 10 + d;
        i = i + 1;
        if acc > 0x8000_0000 {
            proof {
                if all_digits(tail) {
                    lemma_digits_val_monotone(tail, i - from);
                }
            }
            return None;
        }
    }
    proof {
        assert(forall|j: int| 0 <= j < tail.len() ==> tail[j] == s@[j + from]);
        assert(tail.take(n - from) =~= tail);
        assert(all_digits(tail));
    }
    Some(acc as u32)
}

/// The one-character string slice for digit `d`.
fn digit_str(d: u32) -> (r: &'static str)
    requires
        d < 10,
    ensures
        r@ =~= seq![digit_char(d as nat)],
{
    proof {
        reveal_strlit("0");
        reveal_strlit("1");
        reveal_strlit("2");
        reveal_strlit("3");
        reveal_strlit("4");
        reveal_strlit("5");
        reveal_strlit("6");
        reveal_strlit("7");
        reveal_strlit("8");
        reveal_strlit("9");
    }
    match d {
        0 => "0",
        1 => "1",
        2 => "2",
        3 => "3",
        4 => "4",
        5 => "5",
        6 => "6",
        7 => "7",
        8 => "8",
        _ => "9",
    }
}

/// Append the decimal digits of `m` to `out`, most significant first.
fn push_udec(out: &mut String, m: u32)
    ensures
        final(out)@ == old(out)@ + spec_udec(m as nat),
    decreases m,
{
    if m >= 10 {
        push_udec(out, m / 10);
    }
    out.append(digit_str(m % 10));
    proof {
        assert(out@ =~= old(out)@ + spec_udec(m as nat));
    }
}

/// Render `n` in decimal, with a leading `-` when it is negative.
pub fn i32_to_string(n: i32) -> (r: String)
    ensures
        r@ == spec_i32_chars(n as int),
{
    let mut out = String::new();
    if n < 0 {
        proof {
            reveal_strlit("-");
        }
        out.append("-");
        let m: u32 = (-(n as i64)) as u32;
        proof {
            assert(m == -(n as int)) by (bit_vector)
                requires
                    n < 0 && m == (-(n as i64)) as u32,
            ;
        }
        push_udec(&mut out, m);
        proof {
            assert(out@ =~= spec_i32_chars(n as int));
        }
    } else {
        push_udec(&mut out, n as u32);
        proof {
            assert(out@ =~= spec_i32_chars(n as int));
        }
    }
    out
}

/// Parse text as an `i32`, exactly as the documented grammar reads: an
/// optional sign, then digits, then the end of the text.
pub fn parse_i32(s: &str) -> (r: Option<i32>)
    ensures
        r == spec_parse_i32(s@),
{
    let n = s.unicode_len();
    if n == 0 {
        return None;
    }
    let first = s.get_char(0);
    let negative = first == '-';
    let start: usize = if first == '-' || first == '+' {
        1
    } else {
        0
    };
    let magnitude = accumulate_digits(s, start, n);
    proof {
        if start == 1 {
            assert(!is_digit_char(s@[0]));
            assert(!all_digits(s@));
        } else {
            assert(s@.skip(0) =~= s@);
        }
    }
    match magnitude {
        None => None,
        Some(acc) => {
            proof {
                lemma_digits_val_nonneg(s@.skip(start as int));
            }
            if negative {
                let val: i32 = (-(acc as i64)) as i32;
                proof {
                    assert((-(acc as i64)) as i32 == -(acc as int)) by (bit_vector)
                        requires
                            acc <= 0x8000_0000u32,
                    ;
                }
                Some(val)
            } else {
                if acc <= 0x7fff_ffffu32 {
                    Some(acc as i32)
                } else {
                    None
                }
            }
        },
    }
}

} // verus!
