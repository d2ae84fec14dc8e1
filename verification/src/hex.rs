//! Lowercase hexadecimal rendering of byte strings.
//!
//! Digests and signatures are transmitted as lowercase hex; the encoding is
//! fixed here once and proved exact, so every hex value in the protocol is
//! two digits per byte with `a`-`f` in lower case.
use vstd::prelude::*;

verus! {

/// The lowercase hex digit for a value below 16.
pub open spec fn spec_hex_digit(d: int) -> char
    recommends
        0 <= d < 16,
{
    if d == 0 {
        '0'
    } else if d == 1 {
        '1'
    } else if d == 2 {
        '2'
    } else if d == 3 {
        '3'
    } else if d == 4 {
        '4'
    } else if d == 5 {
        '5'
    } else if d == 6 {
        '6'
    } else if d == 7 {
        '7'
    } else if d == 8 {
        '8'
    } else if d == 9 {
        '9'
    } else if d == 10 {
        'a'
    } else if d == 11 {
        'b'
    } else if d == 12 {
        'c'
    } else if d == 13 {
        'd'
    } else if d == 14 {
        'e'
    } else {
        'f'
    }
}

/// The two lowercase hex digits of one byte, high nibble first.
pub open spec fn spec_hex_byte(b: u8) -> Seq<char> {
    seq![spec_hex_digit(b as int / 16), spec_hex_digit(b as int % 16)]
}

/// The lowercase hex rendering of a byte string: two digits per byte,
/// in order.
pub open spec fn spec_hex(bytes: Seq<u8>) -> Seq<char>
    decreases bytes.len(),
{
    if bytes.len() == 0 {
        Seq::empty()
    } else {
        spec_hex_byte(bytes[0]) + spec_hex(bytes.drop_first())
    }
}

pub proof fn lemma_spec_hex_push(bytes: Seq<u8>, b: u8)
    ensures
        spec_hex(bytes.push(b)) == spec_hex(bytes) + spec_hex_byte(b),
    decreases bytes.len(),
{
    if bytes.len() == 0 {
        let s = bytes.push(b);
        assert(s.drop_first() =~= Seq::<u8>::empty());
        assert(spec_hex(s.drop_first()) =~= Seq::<char>::empty());
        assert(spec_hex(s) =~= spec_hex_byte(s[0]) + spec_hex(s.drop_first()));
        assert(spec_hex(s) =~= spec_hex_byte(b));
        assert(spec_hex(bytes) + spec_hex_byte(b) =~= spec_hex_byte(b));
    } else {
        assert(bytes.push(b).drop_first() =~= bytes.drop_first().push(b));
        lemma_spec_hex_push(bytes.drop_first(), b);
        assert(spec_hex(bytes.push(b)) =~= spec_hex_byte(bytes[0]) + (spec_hex(bytes.drop_first())
            + spec_hex_byte(b)));
        assert(spec_hex_byte(bytes[0]) + (spec_hex(bytes.drop_first()) + spec_hex_byte(b)) =~= (
        spec_hex_byte(bytes[0]) + spec_hex(bytes.drop_first())) + spec_hex_byte(b));
    }
}

/// Every character of a hex rendering is a digit or `a`-`f`, so the
/// rendering is plain ASCII.
pub proof fn lemma_spec_hex_len(bytes: Seq<u8>)
    ensures
        spec_hex(bytes).len() == 2 * bytes.len(),
    decreases bytes.len(),
{
    if bytes.len() > 0 {
        lemma_spec_hex_len(bytes.drop_first());
    }
}

/// The uppercase hex digit for a value below 16, as percent-encoding
/// requires.
pub open spec fn spec_hex_digit_upper(d: int) -> char
    recommends
        0 <= d < 16,
{
    if d == 10 {
        'A'
    } else if d == 11 {
        'B'
    } else if d == 12 {
        'C'
    } else if d == 13 {
        'D'
    } else if d == 14 {
        'E'
    } else if d == 15 {
        'F'
    } else {
        spec_hex_digit(d)
    }
}

pub fn hex_digit_upper(d: u8) -> (c: char)
    requires
        d < 16,
    ensures
        c == spec_hex_digit_upper(d as int),
{
    match d {
        0 => '0',
        1 => '1',
        2 => '2',
        3 => '3',
        4 => '4',
        5 => '5',
        6 => '6',
        7 => '7',
        8 => '8',
        9 => '9',
        10 => 'A',
        11 => 'B',
        12 => 'C',
        13 => 'D',
        14 => 'E',
        _ => 'F',
    }
}

fn hex_digit(d: u8) -> (c: char)
    requires
        d < 16,
    ensures
        c == spec_hex_digit(d as int),
{
    match d {
        0 => '0',
        1 => '1',
        2 => '2',
        3 => '3',
        4 => '4',
        5 => '5',
        6 => '6',
        7 => '7',
        8 => '8',
        9 => '9',
        10 => 'a',
        11 => 'b',
        12 => 'c',
        13 => 'd',
        14 => 'e',
        _ => 'f',
    }
}

/// Renders a byte string as lowercase hex, two digits per byte.
pub fn hex_encode(bytes: &Vec<u8>) -> (r: String)
    ensures
        r@ == spec_hex(bytes@),
        r@.len() == 2 * bytes@.len(),
{
    let mut out = String::new();
    let mut i: usize = 0;
    while i < bytes.len()
        invariant
            i <= bytes@.len(),
            out@ == spec_hex(bytes@.take(i as int)),
        decreases bytes@.len() - i,
    {
        let b = bytes[i];
        let hi = hex_digit(b / 16);
        let lo = hex_digit(b % 16);
        crate::strings::push_char(&mut out, hi);
        crate::strings::push_char(&mut out, lo);
        proof {
            assert(bytes@.take(i + 1 as int) =~= bytes@.take(i as int).push(bytes@[i as int]));
            lemma_spec_hex_push(bytes@.take(i as int), bytes@[i as int]);
            assert(out@ =~= spec_hex(bytes@.take(i as int)) + spec_hex_byte(bytes@[i as int]));
        }
        i = i + 1;
    }
    proof {
        assert(bytes@.take(bytes@.len() as int) =~= bytes@);
        lemma_spec_hex_len(bytes@);
    }
    out
}

} // verus!
