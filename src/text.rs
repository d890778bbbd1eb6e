//! Building diagnostic text: hexadecimal and decimal digits.
use vstd::prelude::*;

verus! {

/// The lowercase hexadecimal digit for `d` (0 to 15).
pub open spec fn hex_digit(d: int) -> char {
    seq!['0', '1', '2', '3', '4', '5', '6', '7', '8', '9', 'a', 'b', 'c', 'd', 'e', 'f'][d]
}

/// Two lowercase hexadecimal digits for a byte.
pub open spec fn hex2(b: u8) -> Seq<char> {
    seq![hex_digit(b as int / 16), hex_digit(b as int % 16)]
}

/// Four lowercase hexadecimal digits for a number below 65536.
pub open spec fn hex4(n: int) -> Seq<char> {
    seq![
        hex_digit(n / 4096 % 16),
        hex_digit(n / 256 % 16),
        hex_digit(n / 16 % 16),
        hex_digit(n % 16),
    ]
}

/// The decimal digits of `n`, without leading zeros.
pub open spec fn decimal(n: nat) -> Seq<char>
    decreases n,
{
    if n < 10 {
        seq![hex_digit(n as int)]
    } else {
        decimal(n / 10).push(hex_digit((n % 10) as int))
    }
}

/// A parenthesised, comma-separated list of the decimal values of `s`.
pub open spec fn tuple_text(s: Seq<u8>) -> Seq<char> {
    seq!['('] + tuple_items(s) + seq![')']
}

/// The decimal values of `s`, separated by commas.
pub open spec fn tuple_items(s: Seq<u8>) -> Seq<char>
    decreases s.len(),
{
    if s.len() == 0 {
        Seq::empty()
    } else if s.len() == 1 {
        decimal(s[0] as nat)
    } else {
        tuple_items(s.drop_last()) + seq![','] + decimal(s.last() as nat)
    }
}

/// Relies on String::push: appends one character at the end.
#[verifier::external_body]
pub(crate) fn push_char(s: &mut String, c: char)
    ensures
        final(s)@ == old(s)@.push(c),
{
    s.push(c)
}

/// Relies on String::push_str: appends the characters of `t` at the end.
#[verifier::external_body]
pub(crate) fn push_str(s: &mut String, t: &str)
    ensures
        final(s)@ == old(s)@ + t@,
{
    s.push_str(t)
}

/// The digit character for `d` (0 to 15).
pub fn hex_char(d: u8) -> (c: char)
    requires
        d < 16,
    ensures
        c == hex_digit(d as int),
{
    match d {
        0 => '0',
        1 => '1',
        2 => '2',
        3 => '3',
        4 => '4',
        5 => '5',
        6 => '6',
        7 => '7',
        8 => '8',
        9 => '9',
        10 => 'a',
        11 => 'b',
        12 => 'c',
        13 => 'd',
        14 => 'e',
        _ => 'f',
    }
}

/// Appends the two hexadecimal digits of `b`.
pub(crate) fn push_hex2(s: &mut String, b: u8)
    ensures
        final(s)@ == old(s)@ + hex2(b),
{
    let ghost start = s@;
    push_char(s, hex_char(b / 16));
    push_char(s, hex_char(b % 16));
    assert(s@ =~= start + hex2(b));
}

/// Appends the decimal digits of `n`.
pub(crate) fn push_decimal(s: &mut String, n: u8)
    ensures
        final(s)@ == old(s)@ + decimal(n as nat),
{
    let ghost start = s@;
    proof {
        reveal_with_fuel(decimal, 3);
    }
    if n >= 100 {
        push_char(s, hex_char(n / 100));
        push_char(s, hex_char(n / 10 % 10));
        push_char(s, hex_char(n % 10));
        assert(s@ =~= start + decimal(n as nat));
    } else if n >= 10 {
        push_char(s, hex_char(n / 10));
        push_char(s, hex_char(n % 10));
        assert(s@ =~= start + decimal(n as nat));
    } else {
        push_char(s, hex_char(n));
        assert(s@ =~= start + decimal(n as nat));
    }
}

/// The decimal values of `items` as a parenthesised, comma-separated list.
pub fn tuple_string(items: &[u8]) -> (r: String)
    ensures
        r@ == tuple_text(items@),
{
    let mut r = String::new();
    push_char(&mut r, '(');
    let mut i: usize = 0;
    while i < items.len()
        invariant
            i <= items@.len(),
            r@ == seq!['('] + tuple_items(items@.take(i as int)),
        decreases items@.len() - i,
    {
        let ghost before = r@;
        if i > 0 {
            push_char(&mut r, ',');
        }
        push_decimal(&mut r, items[i]);
        i += 1;
        proof {
            let t = items@.take(i as int);
            assert(t.drop_last() =~= items@.take(i - 1));
            assert(t.last() == items@[i - 1]);
            if i == 1 {
                assert(items@.take(0) =~= Seq::<u8>::empty());
                assert(r@ =~= seq!['('] + tuple_items(t));
            } else {
                assert(r@ =~= seq!['('] + tuple_items(t));
            }
        }
    }
    push_char(&mut r, ')');
    assert(items@.take(items@.len() as int) =~= items@);
    assert(r@ =~= tuple_text(items@));
    r
}

} // verus!
