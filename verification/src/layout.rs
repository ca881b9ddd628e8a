//! Text layout: decimal numbers, padding and clipping, counted in
//! characters.

use vstd::prelude::*;
use vstd::string::*;

verus! {

/// The character of a decimal digit.
pub open spec fn digit(d: nat) -> char {
    if d == 0 {
        '0'
    } else if d == 1 {
        '1'
    } else if d == 2 {
        '2'
    } else if d == 3 {
        '3'
    } else if d == 4 {
        '4'
    } else if d == 5 {
        '5'
    } else if d == 6 {
        '6'
    } else if d == 7 {
        '7'
    } else if d == 8 {
        '8'
    } else {
        '9'
    }
}

/// The decimal numeral of `n`, without leading zeros.
pub open spec fn decimal(n: nat) -> Seq<char>
    decreases n,
{
    if n < 10 {
        seq![digit(n)]
    } else {
        decimal(n / 10).push(digit(n % 10))
    }
}

/// `n` blanks.
pub open spec fn spaces(n: nat) -> Seq<char> {
    Seq::new(n, |i: int| ' ')
}

/// `text` with blanks in front of it, up to `width` characters.
pub open spec fn pad_left(text: Seq<char>, width: nat) -> Seq<char> {
    if text.len() < width {
        spaces((width - text.len()) as nat) + text
    } else {
        text
    }
}

/// `text` with blanks behind it, up to `width` characters.
pub open spec fn pad_right(text: Seq<char>, width: nat) -> Seq<char> {
    if text.len() < width {
        text + spaces((width - text.len()) as nat)
    } else {
        text
    }
}

/// The first `width` characters of `text`, or all of it where it is shorter.
pub open spec fn clip(text: Seq<char>, width: nat) -> Seq<char> {
    if text.len() > width {
        text.take(width as int)
    } else {
        text
    }
}

pub fn decimal_text(n: usize) -> (text: String)
    ensures
        text@ == decimal(n as nat),
    decreases n,
{
    let digits = "0123456789";
    proof {
        reveal_strlit("0123456789");
    }
    let d: usize = n % 10;
    let last = digits.substring_char(d, d + 1);
    assert(last@ =~= seq![digit(d as nat)]);
    if n < 10 {
        String::from_str(last)
    } else {
        let mut text = decimal_text(n / 10);
        text.append(last);
        assert(text@ =~= decimal(n as nat));
        text
    }
}

pub fn padded_left(text: &str, width: usize) -> (padded: String)
    ensures
        padded@ == pad_left(text@, width as nat),
{
    let n: usize = text.unicode_len();
    let mut padded = String::new();
    let mut i: usize = n;
    assert(padded@ =~= spaces(0));
    while i < width
        invariant
            n <= i,
            i <= width || i == n,
            padded@ == spaces((i - n) as nat),
        decreases width - i,
    {
        proof {
            reveal_strlit(" ");
        }
        padded.append(" ");
        i += 1;
        assert(padded@ =~= spaces((i - n) as nat));
    }
    padded.append(text);
    assert(padded@ =~= pad_left(text@, width as nat));
    padded
}

pub fn padded_right(text: &str, width: usize) -> (padded: String)
    ensures
        padded@ == pad_right(text@, width as nat),
{
    let n: usize = text.unicode_len();
    let mut padded = String::from_str(text);
    let mut i: usize = n;
    assert(padded@ =~= text@ + spaces(0));
    while i < width
        invariant
            n <= i,
            i <= width || i == n,
            padded@ == text@ + spaces((i - n) as nat),
        decreases width - i,
    {
        proof {
            reveal_strlit(" ");
        }
        padded.append(" ");
        i += 1;
        assert(padded@ =~= text@ + spaces((i - n) as nat));
    }
    assert(padded@ =~= pad_right(text@, width as nat));
    padded
}

pub fn clipped<'a>(text: &'a str, width: usize) -> (shown: &'a str)
    ensures
        shown@ == clip(text@, width as nat),
{
    let n: usize = text.unicode_len();
    if n > width {
        text.substring_char(0, width)
    } else {
        text
    }
}

} // verus!
