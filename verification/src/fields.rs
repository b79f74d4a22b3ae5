use vstd::prelude::*;

verus! {

/// The bits of `raw` that start at bit `lo`, kept by `mask`.
pub open spec fn field(raw: u32, lo: u32, mask: u32) -> int {
    ((raw >> lo) & mask) as int
}

/// Two's-complement reading of a `2 * half`-wide unsigned `value`.
pub open spec fn signed_field(value: int, half: int) -> int {
    if value >= half {
        value - 2 * half
    } else {
        value
    }
}

/// The value of a 32-bit word read as a two's-complement `i32`.
pub open spec fn signed32(x: u32) -> int {
    signed_field(x as int, 0x8000_0000)
}

/// The 32-bit word whose two's-complement reading is `x` modulo 2^32.
pub open spec fn wrap32(x: int) -> u32 {
    (x % 0x1_0000_0000) as u32
}

proof fn lemma_sign_extend(value: u32, bits: u32)
    requires
        1 <= bits <= 31,
        value < (1u32 << bits),
    ensures
        (((value << ((32 - bits) as u32)) as i32) >> ((32 - bits) as u32)) as int
            == signed_field(value as int, (1u32 << ((bits - 1) as u32)) as int),
{
    let s = (32 - bits) as u32;
    let h = (1u32 << ((bits - 1) as u32));
    assert((((value << s) as i32) >> s) as int == if value >= h {
        value as int - 2 * (h as int)
    } else {
        value as int
    }) by (bit_vector)
        requires
            1 <= bits <= 31,
            value < (1u32 << bits),
            s == 32 - bits,
            h == (1u32 << ((bits - 1) as u32)),
    ;
}

/// The bits of `raw` that start at bit `lo`, kept by `mask`.
pub fn bits32(raw: u32, lo: u32, mask: u32) -> (r: u32)
    requires
        lo < 32,
    ensures
        r == field(raw, lo, mask),
        r <= mask,
{
    let r = (raw >> lo) & mask;
    assert(r <= mask) by (bit_vector)
        requires
            r == (raw >> lo) & mask,
    ;
    r
}

/// Sign-extends the low `bits` bits of `value` to an `i32`.
pub fn sign_extend(value: u32, bits: u8) -> (r: i32)
    requires
        1 <= bits <= 31,
        value < (1u32 << bits),
    ensures
        r as int == signed_field(value as int, (1u32 << ((bits - 1) as u32)) as int),
{
    let shift: u32 = 32 - bits as u32;
    proof {
        lemma_sign_extend(value, bits as u32);
    }
    ((value << shift) as i32) >> shift
}

/// A word reinterpreted as `i32` has the two's-complement value.
pub proof fn lemma_as_i32(x: u32)
    ensures
        (x as i32) as int == signed32(x),
{
    assert((x as i32) as int == if x >= 0x8000_0000u32 {
        x as int - 0x1_0000_0000
    } else {
        x as int
    }) by (bit_vector);
}

/// An `i32` reinterpreted as a word is its value modulo 2^32.
pub proof fn lemma_i32_as_u32(x: i32)
    ensures
        (x as u32) == wrap32(x as int),
{
    assert((x as u32) as int == if x < 0 {
        x as int + 0x1_0000_0000
    } else {
        x as int
    }) by (bit_vector);
}


/// The powers of two that sign extensions here are made with.
pub proof fn lemma_shift_constants()
    ensures
        (1u32 << 5u32) == 0x20,
        (1u32 << 6u32) == 0x40,
        (1u32 << 7u32) == 0x80,
        (1u32 << 8u32) == 0x100,
        (1u32 << 9u32) == 0x200,
        (1u32 << 10u32) == 0x400,
        (1u32 << 11u32) == 0x800,
        (1u32 << 12u32) == 0x1000,
        (1u32 << 13u32) == 0x2000,
        (1u32 << 15u32) == 0x8000,
        (1u32 << 16u32) == 0x1_0000,
        (1u32 << 20u32) == 0x10_0000,
        (1u32 << 21u32) == 0x20_0000,
{
    assert((1u32 << 5u32) == 0x20 && (1u32 << 6u32) == 0x40 && (1u32 << 7u32) == 0x80 && (1u32
        << 8u32) == 0x100 && (1u32 << 9u32) == 0x200 && (1u32 << 10u32) == 0x400 && (1u32
        << 11u32) == 0x800 && (1u32 << 12u32) == 0x1000 && (1u32 << 13u32) == 0x2000 && (1u32
        << 15u32) == 0x8000 && (1u32 << 16u32) == 0x1_0000 && (1u32 << 20u32) == 0x10_0000 && (1u32
        << 21u32) == 0x20_0000) by (bit_vector);
}
} // verus!
