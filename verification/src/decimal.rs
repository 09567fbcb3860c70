//! Decimal notation for integers.
use crate::text::Source;
use vstd::prelude::*;

verus! {

/// One of the characters `0` to `9`.
pub open spec fn is_digit(c: char) -> bool {
    '0' <= c <= '9'
}

/// The number that a digit stands for.
pub open spec fn digit_value(c: char) -> int {
    c as int - '0' as int
}

/// The digit that stands for `d`, for `d` below ten.
pub open spec fn digit_char(d: int) -> char {
    ((d + '0' as int) as u8) as char
}

/// A non-empty run of digits.
pub open spec fn is_number(s: Seq<char>) -> bool {
    &&& s.len() > 0
    &&& forall|i: int| 0 <= i < s.len() ==> is_digit(#[trigger] s[i])
}

/// The number that a run of digits denotes in base ten.
pub open spec fn number_value(s: Seq<char>) -> int
    decreases s.len(),
{
    if s.len() == 0 {
        0
    } else {
        10 * number_value(s.drop_last()) + digit_value(s.last())
    }
}

/// The digits of `n` in base ten, without leading zeros.
pub open spec fn numeral(n: nat) -> Seq<char>
    decreases n,
{
    if n < 10 {
        seq![digit_char(n as int)]
    } else {
        numeral(n / 10).push(digit_char((n % 10) as int))
    }
}

/// Decimal notation of an integer: a minus sign for a negative number, then
/// the digits of its magnitude.
pub open spec fn decimal(n: int) -> Seq<char> {
    if n < 0 {
        seq!['-'] + numeral((-n) as nat)
    } else {
        numeral(n as nat)
    }
}

/// The 32-bit value of a literal: defined for a run of digits whose number is
/// at most `i32::MAX`.
pub open spec fn literal_value(s: Seq<char>) -> Option<i32> {
    if is_number(s) && number_value(s) <= i32::MAX {
        Some(number_value(s) as i32)
    } else {
        None
    }
}

/// Reading the digits of `n` gives `n` back.
pub proof fn lemma_numeral_value(n: nat)
    ensures
        is_number(numeral(n)),
        number_value(numeral(n)) == n,
    decreases n,
{
    if n < 10 {
        assert(numeral(n).drop_last() =~= Seq::<char>::empty());
        assert(number_value(numeral(n).drop_last()) == 0);
    } else {
        lemma_numeral_value(n / 10);
        assert(numeral(n).drop_last() =~= numeral(n / 10));
    }
}

/// A run of digits never denotes less than one of its prefixes.
pub proof fn lemma_number_value_prefix(s: Seq<char>, k: int)
    requires
        forall|i: int| 0 <= i < s.len() ==> is_digit(#[trigger] s[i]),
        0 <= k <= s.len(),
    ensures
        0 <= number_value(s.take(k)) <= number_value(s),
    decreases s.len(),
{
    if k == s.len() {
        assert(s.take(k) =~= s);
        if s.len() > 0 {
            lemma_number_value_prefix(s.drop_last(), k - 1);
        }
    } else {
        lemma_number_value_prefix(s.drop_last(), k);
        assert(s.drop_last().take(k) =~= s.take(k));
    }
}

/// Reads a literal.
///
/// Returns the value of `tok` when `tok` is a non-empty run of digits that
/// denotes at most `i32::MAX`, and `None` for every other text.
pub fn parse_number(tok: &str) -> (r: Option<i32>)
    ensures
        r == literal_value(tok@),
{
    let src = Source::new(tok);
    let n: usize = src.len();
    if n == 0 {
        return None;
    }
    let mut value: u32 = 0;
    let mut i: usize = 0;
    while i < n
        invariant
            i <= n,
            n == tok@.len(),
            src@ == tok@,
            forall|j: int| 0 <= j < i ==> is_digit(#[trigger] tok@[j]),
            value == number_value(tok@.take(i as int)),
            value <= i32::MAX,
        decreases n - i,
    {
        let c: char = src.char_at(i);
        if !(c >= '0' && c <= '9') {
            return None;
        }
        let d: u32 = c as u32 - '0' as u32;
        let next: u64 = value as u64 * 10 + d as u64;
        proof {
            assert(tok@.take(i + 1).drop_last() =~= tok@.take(i as int));
            assert(tok@.take(i + 1).last() == c);
            assert(next == number_value(tok@.take(i + 1)));
        }
        if next > i32::MAX as u64 {
            proof {
                if is_number(tok@) {
                    lemma_number_value_prefix(tok@, i + 1);
                }
            }
            return None;
        }
        value = next as u32;
        i += 1;
    }
    assert(tok@.take(n as int) =~= tok@);
    Some(value as i32)
}

/// The text of one digit.
fn digit_text(d: u32) -> (t: &'static str)
    requires
        d < 10,
    ensures
        t@ == seq![digit_char(d as int)],
{
    proof {
        reveal_strlit("0");
        reveal_strlit("1");
        reveal_strlit("2");
        reveal_strlit("3");
        reveal_strlit("4");
        reveal_strlit("5");
        reveal_strlit("6");
        reveal_strlit("7");
        reveal_strlit("8");
        reveal_strlit("9");
    }
    let t = match d {
        0 => "0",
        1 => "1",
        2 => "2",
        3 => "3",
        4 => "4",
        5 => "5",
        6 => "6",
        7 => "7",
        8 => "8",
        _ => "9",
    };
    assert(t@ =~= seq![digit_char(d as int)]);
    t
}

/// Writes a natural number in base ten.
fn numeral_string(n: u32) -> (s: String)
    ensures
        s@ == numeral(n as nat),
    decreases n,
{
    if n < 10 {
        String::from_str(digit_text(n))
    } else {
        let mut s = numeral_string(n / 10);
        s.append(digit_text(n % 10));
        s
    }
}

/// Writes an integer in decimal notation.
pub fn int_to_string(n: i32) -> (s: String)
    ensures
        s@ == decimal(n as int),
{
    if n < 0 {
        let m: u32 = (-(n as i64)) as u32;
        proof {
            reveal_strlit("-");
        }
        let mut s = String::from_str("-");
        let digits = numeral_string(m);
        s.append(digits.as_str());
        assert("-"@ =~= seq!['-']);
        s
    } else {
        numeral_string(n as u32)
    }
}

} // verus!
