use vstd::prelude::*;

verus! {

/// The byte whose high nibble is `a` and whose low nibble is `b`.
pub open spec fn byte_of(a: u8, b: u8) -> u8 {
    (a << 4u8) | b
}

/// The 12-bit address made of three nibbles, most significant first.
pub open spec fn addr_of(a: u8, b: u8, c: u8) -> u16 {
    ((a as u16) << 8u16) | ((b as u16) << 4u16) | (c as u16)
}

/// The 16-bit word whose high byte is `a` and whose low byte is `b`.
pub open spec fn word_of(a: u8, b: u8) -> u16 {
    ((a as u16) << 8u16) | (b as u16)
}

/// On nibbles, `byte_of` is positional notation in base 16.
pub proof fn lemma_byte_of_nibbles(a: u8, b: u8)
    requires
        a < 16,
        b < 16,
    ensures
        byte_of(a, b) == a * 16 + b,
{
    assert(((a << 4u8) | b) == a * 16 + b) by (bit_vector)
        requires
            a < 16,
            b < 16,
    ;
}

/// On nibbles, `addr_of` is positional notation in base 16.
pub proof fn lemma_addr_of_nibbles(a: u8, b: u8, c: u8)
    requires
        a < 16,
        b < 16,
        c < 16,
    ensures
        addr_of(a, b, c) == a * 256 + b * 16 + c,
        addr_of(a, b, c) < 4096,
{
    assert((((a as u16) << 8u16) | ((b as u16) << 4u16) | (c as u16)) == a * 256 + b * 16 + c)
        by (bit_vector)
        requires
            a < 16,
            b < 16,
            c < 16,
    ;
}

/// A 16-bit word is its high byte times 256 plus its low byte.
pub proof fn lemma_word_of_bytes(a: u8, b: u8)
    ensures
        word_of(a, b) == a * 256 + b,
{
    assert((((a as u16) << 8u16) | (b as u16)) == a * 256 + b) by (bit_vector);
}

/// Joins two nibbles into a byte, `a` high and `b` low. Bits of `a` above
/// the fourth are shifted out.
#[inline(always)]
pub fn u8_from_two(a: u8, b: u8) -> (r: u8)
    ensures
        r == byte_of(a, b),
        a < 16 && b < 16 ==> r == a * 16 + b,
{
    proof {
        if a < 16 && b < 16 {
            lemma_byte_of_nibbles(a, b);
        }
    }
    a << 4 | b
}

/// Joins three nibbles into a 12-bit address, `a` highest.
#[inline(always)]
pub fn u16_from_three(a: u8, b: u8, c: u8) -> (r: u16)
    ensures
        r == addr_of(a, b, c),
        a < 16 && b < 16 && c < 16 ==> r == a * 256 + b * 16 + c,
{
    proof {
        if a < 16 && b < 16 && c < 16 {
            lemma_addr_of_nibbles(a, b, c);
        }
    }
    (a as u16) << 8 | (b as u16) << 4 | (c as u16)
}

/// Joins two bytes into a 16-bit word, `a` high.
#[inline(always)]
pub fn u16_from_two(a: u8, b: u8) -> (r: u16)
    ensures
        r == word_of(a, b),
        r == a * 256 + b,
{
    proof {
        lemma_word_of_bytes(a, b);
    }
    (a as u16) << 8 | b as u16
}

} // verus!
