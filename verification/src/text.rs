//! Building the strings the game shows: binary digits grouped by nibble,
//! decimal numbers and rows of heart symbols.
use vstd::prelude::*;

verus! {

/// Appends a character with `String::push`, whose documentation says that
/// the character is added to the end of the string.
#[verifier::external_body]
pub(crate) fn push_char(s: &mut String, c: char)
    ensures
        final(s)@ == old(s)@.push(c),
{
    s.push(c)
}

/// The character of a binary digit.
pub open spec fn bit_char(b: nat) -> char {
    if b % 2 == 1 { '1' } else { '0' }
}

/// `n` in base two, most significant digit first, padded with zeros on
/// the left to at least `width` digits (as `format!("{:0width$b}", n)`).
pub open spec fn binary_padded(n: nat, width: nat) -> Seq<char>
    decreases n + width,
{
    if n < 2 && width <= 1 {
        seq![bit_char(n)]
    } else {
        binary_padded(n / 2, if width > 0 { (width - 1) as nat } else { 0 }).push(bit_char(n))
    }
}

/// The characters of `s` cut, from the left, into groups of four that are
/// separated by one space.
pub open spec fn grouped_by_four(s: Seq<char>) -> Seq<char>
    decreases s.len(),
{
    if s.len() == 0 {
        seq![]
    } else if s.len() > 1 && (s.len() - 1) % 4 == 0 {
        grouped_by_four(s.drop_last()).push(' ').push(s.last())
    } else {
        grouped_by_four(s.drop_last()).push(s.last())
    }
}

/// The character of a decimal digit.
pub open spec fn digit_char(d: nat) -> char {
    (d + 48) as char
}

/// `n` in base ten without leading zeros.
pub open spec fn decimal(n: nat) -> Seq<char>
    decreases n,
{
    if n < 10 {
        seq![digit_char(n)]
    } else {
        decimal(n / 10).push(digit_char(n % 10))
    }
}

/// `count` copies of `c`.
pub open spec fn repeated(c: char, count: nat) -> Seq<char> {
    Seq::new(count, |i: int| c)
}

fn binary_digits_into(out: &mut Vec<char>, n: u32, width: u32)
    ensures
        final(out)@ == old(out)@ + binary_padded(n as nat, width as nat),
    decreases n + width,
{
    let c = if n % 2 == 1 { '1' } else { '0' };
    if n < 2 && width <= 1 {
        out.push(c);
        assert(binary_padded(n as nat, width as nat) == seq![c]);
    } else {
        let w = if width > 0 { width - 1 } else { 0 };
        binary_digits_into(out, n / 2, w);
        out.push(c);
    }
}

/// `n` in base two, padded to `width` digits, in groups of four separated
/// by spaces.
pub fn grouped_binary(n: u32, width: u32) -> (r: String)
    ensures
        r@ == grouped_by_four(binary_padded(n as nat, width as nat)),
{
    let mut digits: Vec<char> = Vec::new();
    binary_digits_into(&mut digits, n, width);
    assert(digits@ == binary_padded(n as nat, width as nat));
    let mut out = String::new();
    let mut i: usize = 0;
    while i < digits.len()
        invariant
            i <= digits@.len(),
            out@ == grouped_by_four(digits@.take(i as int)),
        decreases digits.len() - i,
    {
        assert(digits@.take(i + 1).drop_last() == digits@.take(i as int));
        if i > 0 && i % 4 == 0 {
            push_char(&mut out, ' ');
        }
        push_char(&mut out, digits[i]);
        i = i + 1;
    }
    assert(digits@.take(digits@.len() as int) == digits@);
    out
}

/// Appends `n` in base ten.
pub fn push_decimal(out: &mut String, n: u32)
    ensures
        final(out)@ == old(out)@ + decimal(n as nat),
    decreases n,
{
    if n >= 10 {
        push_decimal(out, n / 10);
    }
    let d: u32 = n % 10;
    let c = ((d as u8) + 48u8) as char;
    assert(c == digit_char(d as nat));
    push_char(out, c);
}

/// Appends `count` copies of `c`.
pub fn push_repeated(out: &mut String, c: char, count: u32)
    ensures
        final(out)@ == old(out)@ + repeated(c, count as nat),
{
    let ghost start = out@;
    let mut i: u32 = 0;
    while i < count
        invariant
            i <= count,
            out@ == start + repeated(c, i as nat),
        decreases count - i,
    {
        push_char(out, c);
        i = i + 1;
        assert(out@ == start + repeated(c, i as nat));
    }
}

} // verus!
