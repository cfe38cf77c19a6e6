//! The text of listings: numbers in decimal, and text aligned in columns.

use vstd::prelude::*;

verus! {

/// The character for a digit.
pub open spec fn digit(d: int) -> char {
    if d == 0 {
        '0'
    } else if d == 1 {
        '1'
    } else if d == 2 {
        '2'
    } else if d == 3 {
        '3'
    } else if d == 4 {
        '4'
    } else if d == 5 {
        '5'
    } else if d == 6 {
        '6'
    } else if d == 7 {
        '7'
    } else if d == 8 {
        '8'
    } else {
        '9'
    }
}

/// A natural number in decimal, without leading zeros.
pub open spec fn decimal(n: nat) -> Seq<char>
    decreases n,
{
    if n < 10 {
        seq![digit(n as int)]
    } else {
        decimal(n / 10).push(digit((n % 10) as int))
    }
}

/// An integer in decimal, with a minus sign if it is negative.
pub open spec fn signed_decimal(n: int) -> Seq<char> {
    if n < 0 {
        seq!['-'] + decimal((-n) as nat)
    } else {
        decimal(n as nat)
    }
}

/// `count` times the character `fill`; nothing if `count` is not positive.
pub open spec fn filling(fill: char, count: int) -> Seq<char> {
    Seq::new(
        if count > 0 {
            count as nat
        } else {
            0
        },
        |i: int| fill,
    )
}

/// `text` at the right of a column of the given width, with `fill` to its
/// left. A text that is wider than the column stays whole.
pub open spec fn align_right(text: Seq<char>, width: int, fill: char) -> Seq<char> {
    filling(fill, width - text.len()) + text
}

/// `text` at the left of a column of the given width, with spaces to its
/// right. A text that is wider than the column stays whole.
pub open spec fn align_left(text: Seq<char>, width: int) -> Seq<char> {
    text + filling(' ', width - text.len())
}

/// The text of one digit.
fn digit_text(d: u64) -> (text: &'static str)
    requires
        d < 10,
    ensures
        text@ == seq![digit(d as int)],
{
    proof {
        reveal_strlit("0");
        reveal_strlit("1");
        reveal_strlit("2");
        reveal_strlit("3");
        reveal_strlit("4");
        reveal_strlit("5");
        reveal_strlit("6");
        reveal_strlit("7");
        reveal_strlit("8");
        reveal_strlit("9");
    }
    let text = if d == 0 {
        "0"
    } else if d == 1 {
        "1"
    } else if d == 2 {
        "2"
    } else if d == 3 {
        "3"
    } else if d == 4 {
        "4"
    } else if d == 5 {
        "5"
    } else if d == 6 {
        "6"
    } else if d == 7 {
        "7"
    } else if d == 8 {
        "8"
    } else {
        "9"
    };
    text
}

/// Appends `n` in decimal.
pub fn push_decimal(text: &mut String, n: u64)
    ensures
        final(text)@ == old(text)@ + decimal(n as nat),
    decreases n,
{
    if n >= 10 {
        push_decimal(text, n / 10);
    }
    text.append(digit_text(n % 10));
}

/// Appends `count` times the character of `fill`.
fn push_filling(text: &mut String, fill: &'static str, count: usize)
    requires
        fill@.len() == 1,
    ensures
        final(text)@ == old(text)@ + filling(fill@[0], count as int),
{
    let mut done: usize = 0;
    while done < count
        invariant
            done <= count,
            fill@.len() == 1,
            text@ == old(text)@ + filling(fill@[0], done as int),
        decreases count - done,
    {
        text.append(fill);
        done = done + 1;
    }
}

/// Appends `part` at the right of a column of the given width, with the
/// character of `fill` to its left.
pub fn push_right(text: &mut String, part: &str, width: usize, fill: &'static str)
    requires
        fill@.len() == 1,
    ensures
        final(text)@ == old(text)@ + align_right(part@, width as int, fill@[0]),
{
    let len = part.unicode_len();
    if len < width {
        push_filling(text, fill, width - len);
    }
    text.append(part);
}

/// Appends `part` at the left of a column of the given width, with spaces
/// to its right.
pub fn push_left(text: &mut String, part: &str, width: usize)
    ensures
        final(text)@ == old(text)@ + align_left(part@, width as int),
{
    proof {
        reveal_strlit(" ");
    }
    let len = part.unicode_len();
    text.append(part);
    if len < width {
        push_filling(text, " ", width - len);
    }
}

/// Appends `n` in decimal at the right of a column of the given width,
/// with the character of `fill` to its left.
pub fn push_number(text: &mut String, n: u64, width: usize, fill: &'static str)
    requires
        fill@.len() == 1,
    ensures
        final(text)@ == old(text)@ + align_right(decimal(n as nat), width as int, fill@[0]),
{
    let mut number = String::new();
    push_decimal(&mut number, n);
    push_right(text, number.as_str(), width, fill);
}

/// Appends `n` in decimal, with a minus sign if it is negative, at the
/// right of a column of the given width, with spaces to its left.
pub fn push_signed(text: &mut String, n: i32, width: usize)
    ensures
        final(text)@ == old(text)@ + align_right(signed_decimal(n as int), width as int, ' '),
{
    proof {
        reveal_strlit(" ");
        reveal_strlit("-");
    }
    let mut number = String::new();
    if n < 0 {
        number.append("-");
        push_decimal(&mut number, (-(n as i64)) as u64);
    } else {
        push_decimal(&mut number, n as u64);
    }
    push_right(text, number.as_str(), width, " ");
}

} // verus!
