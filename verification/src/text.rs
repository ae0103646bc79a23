//! Numbers as text.
use vstd::prelude::*;

verus! {

/// `String::push`: appends one character at the end of the string.
pub assume_specification[ String::push ](text: &mut String, character: char)
    ensures
        final(text)@ == old(text)@.push(character),
;

/// The digit of a value below sixteen, in lower case.
pub open spec fn digit(value: nat) -> char {
    if value == 0 { '0' } else if value == 1 { '1' } else if value == 2 { '2' }
    else if value == 3 { '3' } else if value == 4 { '4' } else if value == 5 { '5' }
    else if value == 6 { '6' } else if value == 7 { '7' } else if value == 8 { '8' }
    else if value == 9 { '9' } else if value == 10 { 'a' } else if value == 11 { 'b' }
    else if value == 12 { 'c' } else if value == 13 { 'd' } else if value == 14 { 'e' }
    else { 'f' }
}

/// The digits of a value to the given base, without leading zeros.
pub open spec fn digits(value: nat, base: nat) -> Seq<char>
    decreases value,
{
    if base < 2 || value < base {
        seq![digit(value)]
    } else {
        proof {
            assert(value / base < value) by (nonlinear_arith)
                requires
                    base >= 2,
                    value >= base,
            ;
        }
        digits(value / base, base).push(digit(value % base))
    }
}

/// The digits of a value, filled up with zeros on the left to `width` places.
pub open spec fn padded(value: nat, base: nat, width: nat) -> Seq<char>
    decreases width,
{
    if base < 2 || width <= 1 {
        digits(value, base)
    } else if value < base {
        zeros((width - 1) as nat).push(digit(value))
    } else {
        padded(value / base, base, (width - 1) as nat).push(digit(value % base))
    }
}

/// A run of zeros.
pub open spec fn zeros(count: nat) -> Seq<char> {
    Seq::new(count, |i: int| '0')
}

/// A padded value never has fewer places than asked for.
pub proof fn lemma_padded_width(value: nat, base: nat, width: nat)
    requires
        base >= 2,
    ensures
        padded(value, base, width).len() >= width,
    decreases width,
{
    if width > 1 && value >= base {
        lemma_padded_width(value / base, base, (width - 1) as nat);
    }
}

/// The character of one digit.
pub fn digit_char(value: u32) -> (character: char)
    requires
        value < 16,
    ensures
        character == digit(value as nat),
{
    match value {
        0 => '0',
        1 => '1',
        2 => '2',
        3 => '3',
        4 => '4',
        5 => '5',
        6 => '6',
        7 => '7',
        8 => '8',
        9 => '9',
        10 => 'a',
        11 => 'b',
        12 => 'c',
        13 => 'd',
        14 => 'e',
        _ => 'f',
    }
}

/// Append the digits of a value to a text.
pub fn push_number(text: &mut String, value: u32, base: u32, width: usize)
    requires
        2 <= base <= 16,
    ensures
        final(text)@ == old(text)@ + padded(value as nat, base as nat, width as nat),
    decreases value, width,
{
    if value < base {
        if width > 1 {
            let mut i: usize = 1;
            while i < width
                invariant
                    1 <= i <= width,
                    text@ == old(text)@ + zeros((i - 1) as nat),
                decreases width - i,
            {
                text.push('0');
                assert(zeros(i as nat) == zeros((i - 1) as nat).push('0'));
                i = i + 1;
            }
        }
        text.push(digit_char(value));
        proof {
            if width <= 1 {
                assert(text@ == old(text)@ + seq![digit(value as nat)]);
            } else {
                assert(text@ == old(text)@ + zeros((width - 1) as nat).push(digit(value as nat)));
            }
        }
    } else {
        let rest: usize = if width > 1 { width - 1 } else { 1 };
        assert(value / base < value) by (nonlinear_arith)
            requires
                base >= 2,
                value >= base,
        ;
        push_number(text, value / base, base, rest);
        text.push(digit_char(value % base));
        proof {
            assert(padded((value / base) as nat, base as nat, 1) == digits((value / base) as nat, base as nat));
            assert(text@ == old(text)@ + padded((value / base) as nat, base as nat, rest as nat).push(
                digit((value % base) as nat)));
        }
    }
}

/// Append a text to another.
pub fn push_text(text: &mut String, tail: &str)
    ensures
        final(text)@ == old(text)@ + tail@,
{
    text.append(tail);
}

} // verus!
