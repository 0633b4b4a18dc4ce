//! Decimal numbers as text, for state dumps.

use vstd::prelude::*;

verus! {

/// The character for a decimal digit.
pub open spec fn digit_char(d: int) -> char {
    seq!['0', '1', '2', '3', '4', '5', '6', '7', '8', '9'][d]
}

/// The character for a hexadecimal digit, letters in upper case.
pub open spec fn hex_char(d: int) -> char {
    seq!['0', '1', '2', '3', '4', '5', '6', '7', '8', '9', 'A', 'B', 'C', 'D', 'E', 'F'][d]
}

/// A number in decimal, without leading zeros.
pub open spec fn decimal(n: nat) -> Seq<char>
    decreases n,
{
    if n < 10 {
        seq![digit_char(n as int)]
    } else {
        decimal(n / 10).push(digit_char((n % 10) as int))
    }
}

/// `count` spaces.
pub open spec fn spaces(count: int) -> Seq<char> {
    Seq::new(if count > 0 { count as nat } else { 0 }, |i: int| ' ')
}

/// A number in decimal, right-aligned in a field of `width` characters
/// and never cut short.
pub open spec fn padded(n: nat, width: nat) -> Seq<char> {
    spaces(width - decimal(n).len()) + decimal(n)
}

/// The digits of a number below 65536, most significant first.
proof fn lemma_decimal_digits(n: nat)
    requires
        n < 65536,
    ensures
        n < 10 ==> decimal(n) == seq![digit_char(n as int)],
        10 <= n < 100 ==> decimal(n) == seq![digit_char(n as int / 10), digit_char(n as int % 10)],
        100 <= n < 1000 ==> decimal(n) == seq![
            digit_char(n as int / 100),
            digit_char((n as int / 10) % 10),
            digit_char(n as int % 10),
        ],
        1000 <= n < 10000 ==> decimal(n) == seq![
            digit_char(n as int / 1000),
            digit_char((n as int / 100) % 10),
            digit_char((n as int / 10) % 10),
            digit_char(n as int % 10),
        ],
        10000 <= n ==> decimal(n) == seq![
            digit_char(n as int / 10000),
            digit_char((n as int / 1000) % 10),
            digit_char((n as int / 100) % 10),
            digit_char((n as int / 10) % 10),
            digit_char(n as int % 10),
        ],
    decreases n,
{
    if n >= 10 {
        lemma_decimal_digits(n / 10);
        let m = (n / 10) as int;
        assert(m / 10 == n as int / 100);
        assert(m / 100 == n as int / 1000);
        assert(m / 1000 == n as int / 10000);
        assert(decimal(n) =~= decimal(n / 10).push(digit_char((n % 10) as int)));
    }
}

/// The character for a decimal digit.
pub(crate) fn digit(d: u16) -> (c: char)
    requires
        d < 10,
    ensures
        c == digit_char(d as int),
{
    match d {
        0 => '0',
        1 => '1',
        2 => '2',
        3 => '3',
        4 => '4',
        5 => '5',
        6 => '6',
        7 => '7',
        8 => '8',
        _ => '9',
    }
}

/// The character for a hexadecimal digit.
pub(crate) fn hex_digit(d: u8) -> (c: char)
    requires
        d < 16,
    ensures
        c == hex_char(d as int),
{
    match d {
        10 => 'A',
        11 => 'B',
        12 => 'C',
        13 => 'D',
        14 => 'E',
        15 => 'F',
        _ => digit(d as u16),
    }
}

/// Appends `n` in decimal, right-aligned in a field of `width` characters.
pub(crate) fn push_padded(text: &mut String, n: u16, width: usize)
    requires
        width <= 8,
    ensures
        final(text)@ == old(text)@ + padded(n as nat, width as nat),
{
    proof {
        lemma_decimal_digits(n as nat);
    }
    let count: usize = if n >= 10000 {
        5
    } else if n >= 1000 {
        4
    } else if n >= 100 {
        3
    } else if n >= 10 {
        2
    } else {
        1
    };
    let mut filled: usize = count;
    while filled < width
        invariant
            count <= filled,
            filled <= width || filled == count,
            text@ == old(text)@ + spaces(filled - count),
        decreases width - filled,
    {
        push_char(text, ' ');
        filled = filled + 1;
        assert(text@ =~= old(text)@ + spaces(filled - count));
    }
    let ghost start = text@;
    assert(start =~= old(text)@ + spaces(width - count));
    if n >= 10000 {
        push_char(text, digit(n / 10000));
    }
    if n >= 1000 {
        push_char(text, digit((n / 1000) % 10));
    }
    if n >= 100 {
        push_char(text, digit((n / 100) % 10));
    }
    if n >= 10 {
        push_char(text, digit((n / 10) % 10));
    }
    push_char(text, digit(n % 10));
    assert(text@ =~= start + decimal(n as nat));
    assert(text@ =~= old(text)@ + padded(n as nat, width as nat));
}

/// Appends `c` to `text` with `String::push`: the text afterwards is the
/// text before followed by `c`.
#[verifier::external_body]
pub(crate) fn push_char(text: &mut String, c: char)
    ensures
        final(text)@ == old(text)@.push(c),
{
    text.push(c);
}

} // verus!
