//! Appending to PDF content streams and decimal numbers in them.

use vstd::prelude::*;
use vstd::string::StringExecFns;

verus! {

/// The ASCII digit for `digit` in `0..10`.
pub open spec fn digit_char(digit: nat) -> char {
    (48 + digit) as char
}

/// The decimal representation of `value`, most significant digit first.
pub open spec fn decimal(value: nat) -> Seq<char>
    decreases value,
{
    if value < 10 {
        seq![digit_char(value)]
    } else {
        decimal(value / 10).push(digit_char(value % 10))
    }
}

/// Append `text` to a content stream.
pub fn push_text(content: &mut String, text: &str)
    ensures
        final(content)@ == old(content)@ + text@,
{
    content.append(text);
}

/// The one-character text of the ASCII digit `digit`.
fn digit_text(digit: usize) -> (text: &'static str)
    requires
        digit < 10,
    ensures
        text@ == seq![digit_char(digit as nat)],
{
    proof {
        reveal_strlit("0");
        reveal_strlit("1");
        reveal_strlit("2");
        reveal_strlit("3");
        reveal_strlit("4");
        reveal_strlit("5");
        reveal_strlit("6");
        reveal_strlit("7");
        reveal_strlit("8");
        reveal_strlit("9");
    }
    match digit {
        0 => "0",
        1 => "1",
        2 => "2",
        3 => "3",
        4 => "4",
        5 => "5",
        6 => "6",
        7 => "7",
        8 => "8",
        _ => "9",
    }
}

/// Append the decimal digits of `value` to `out`, most significant first,
/// without sign or padding.
pub fn push_decimal(out: &mut String, value: usize)
    ensures
        final(out)@ == old(out)@ + decimal(value as nat),
    decreases value,
{
    if value >= 10 {
        push_decimal(out, value / 10);
    }
    let digit = digit_text(value % 10);
    push_text(out, digit);
    proof {
        if value >= 10 {
            assert(decimal(value as nat) == decimal((value / 10) as nat).push(
                digit_char((value % 10) as nat),
            ));
        }
        assert(out@ =~= old(out)@ + decimal(value as nat));
    }
}

} // verus!
