//! Small pieces of text that the rest of the crate is assembled from:
//! decimal numbers, indentation, and comparison of string slices.

use vstd::prelude::*;
use vstd::string::StrSliceExecFns;
use vstd::string::StringExecFns;

verus! {

/// The character that stands for the decimal digit `d`.
pub open spec fn digit_char(d: int) -> char {
    if d == 0 {
        '0'
    } else if d == 1 {
        '1'
    } else if d == 2 {
        '2'
    } else if d == 3 {
        '3'
    } else if d == 4 {
        '4'
    } else if d == 5 {
        '5'
    } else if d == 6 {
        '6'
    } else if d == 7 {
        '7'
    } else if d == 8 {
        '8'
    } else {
        '9'
    }
}

/// The decimal digits of a natural number, most significant first, without
/// leading zeros.
pub open spec fn decimal_digits(n: nat) -> Seq<char>
    decreases n,
{
    if n < 10 {
        seq![digit_char(n as int)]
    } else {
        decimal_digits(n / 10).push(digit_char((n % 10) as int))
    }
}

/// An integer written in decimal, with a leading `-` when it is negative.
pub open spec fn decimal(n: int) -> Seq<char> {
    if n < 0 {
        seq!['-'] + decimal_digits((-n) as nat)
    } else {
        decimal_digits(n as nat)
    }
}

/// `depth` units of indentation, each of four spaces.
pub open spec fn indentation(depth: nat) -> Seq<char> {
    Seq::new(4 * depth, |i: int| ' ')
}

/// Whether `c` is one of the ten decimal digits.
pub open spec fn is_digit(c: char) -> bool {
    c == '0' || c == '1' || c == '2' || c == '3' || c == '4' || c == '5' || c == '6' || c == '7'
        || c == '8' || c == '9'
}

/// The text of one decimal digit.
fn digit_text(d: u64) -> (text: &'static str)
    requires
        d < 10,
    ensures
        text@ == seq![digit_char(d as int)],
{
    proof {
        reveal_strlit("0");
        reveal_strlit("1");
        reveal_strlit("2");
        reveal_strlit("3");
        reveal_strlit("4");
        reveal_strlit("5");
        reveal_strlit("6");
        reveal_strlit("7");
        reveal_strlit("8");
        reveal_strlit("9");
    }
    let text = if d == 0 {
        "0"
    } else if d == 1 {
        "1"
    } else if d == 2 {
        "2"
    } else if d == 3 {
        "3"
    } else if d == 4 {
        "4"
    } else if d == 5 {
        "5"
    } else if d == 6 {
        "6"
    } else if d == 7 {
        "7"
    } else if d == 8 {
        "8"
    } else {
        "9"
    };
    assert(text@ =~= seq![digit_char(d as int)]);
    text
}

/// Appends the decimal digits of `n` to `buffer`.
fn push_digits(buffer: &mut String, n: u64)
    ensures
        final(buffer)@ == old(buffer)@ + decimal_digits(n as nat),
    decreases n,
{
    if n >= 10 {
        push_digits(buffer, n / 10);
    }
    buffer.append(digit_text(n % 10));
    assert(buffer@ =~= old(buffer)@ + decimal_digits(n as nat));
}

/// Appends `n`, written in decimal, to `buffer`.
pub fn push_decimal(buffer: &mut String, n: i32)
    ensures
        final(buffer)@ == old(buffer)@ + decimal(n as int),
{
    if n < 0 {
        proof {
            reveal_strlit("-");
        }
        buffer.append("-");
        let magnitude: u64 = (-(n as i64)) as u64;
        push_digits(buffer, magnitude);
        assert(buffer@ =~= old(buffer)@ + decimal(n as int));
    } else {
        push_digits(buffer, n as u64);
    }
}

/// Appends `depth` units of indentation to `buffer`.
pub fn push_indentation(buffer: &mut String, depth: usize)
    ensures
        final(buffer)@ == old(buffer)@ + indentation(depth as nat),
{
    let mut done: usize = 0;
    assert(buffer@ =~= old(buffer)@ + indentation(0));
    while done < depth
        invariant
            done <= depth,
            buffer@ == old(buffer)@ + indentation(done as nat),
        decreases depth - done,
    {
        proof {
            reveal_strlit("    ");
        }
        buffer.append("    ");
        done += 1;
        assert(buffer@ =~= old(buffer)@ + indentation(done as nat));
    }
}

/// Whether two string slices hold the same characters.
pub fn same_text(left: &str, right: &str) -> (same: bool)
    ensures
        same == (left@ == right@),
{
    let length = left.unicode_len();
    if length != right.unicode_len() {
        return false;
    }
    let mut at: usize = 0;
    while at < length
        invariant
            at <= length,
            length == left@.len(),
            length == right@.len(),
            forall|k: int| 0 <= k < at ==> left@[k] == right@[k],
        decreases length - at,
    {
        if left.get_char(at) != right.get_char(at) {
            return false;
        }
        at += 1;
    }
    assert(left@ =~= right@);
    true
}

} // verus!
