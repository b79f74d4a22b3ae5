use vstd::prelude::*;

verus! {

/// Base address of the GPIO port whose output register `RamBus` models.
pub const GPIO_BASE: u32 = 0x4001_1000;

/// Output data register that `RamBus` maps to its GPIO latch.
pub const GPIO_OUT: u32 = 0x4001_100c;

/// Base address of GPIO port A.
pub const GPIOA_BASE: u32 = 0x4001_0800;

/// Base address of GPIO port C.
pub const GPIOC_BASE: u32 = 0x4001_1000;

/// Base address of GPIO port D.
pub const GPIOD_BASE: u32 = 0x4001_1400;

/// Offset of a port's output data register.
pub const GPIO_OUT_OFFSET: u32 = 0x0c;

/// Offset of a port's bit set/reset register.
pub const GPIO_BSHR_OFFSET: u32 = 0x10;

/// Offset of a port's bit clear register.
pub const GPIO_BCR_OFFSET: u32 = 0x14;

/// Why a bus access failed.
#[derive(Clone, Copy, Debug, PartialEq, Eq, Structural)]
pub enum BusFault {
    /// The address is not aligned to the access width.
    Unaligned { address: u32 },
    /// Nothing answers at the address.
    OutOfRange { address: u32 },
}

/// Byte `k` (0 = least significant) of `word`.
pub open spec fn byte_of(word: u32, k: int) -> u8 {
    ((word >> ((8 * k) as u32)) & 0xff) as u8
}

/// `word` with byte `k` replaced by `value`.
pub open spec fn with_byte(word: u32, k: int, value: u8) -> u32 {
    (word & !(0xffu32 << ((8 * k) as u32))) | ((value as u32) << ((8 * k) as u32))
}

/// The little-endian word made of four bytes.
pub open spec fn le_word(b0: u8, b1: u8, b2: u8, b3: u8) -> u32 {
    (b0 as int + 0x100 * b1 as int + 0x1_0000 * b2 as int + 0x100_0000 * b3 as int) as u32
}

/// A memory-mapped bus: what the hart reads and writes through.
///
/// Each implementation gives its state a view and says, over that view, what each byte and
/// word access returns and how it changes the state.
pub trait Bus: View + Sized {
    /// The states the implementation can be in.
    spec fn valid(state: Self::V) -> bool;

    /// Reading the byte at `address`: the next state and the result.
    spec fn read8_spec(state: Self::V, address: u32) -> (Self::V, Result<u8, BusFault>);

    /// Writing the byte `value` at `address`: the next state and the result.
    spec fn write8_spec(state: Self::V, address: u32, value: u8) -> (Self::V, Result<(), BusFault>);

    /// Reading the half-word at `address`: the next state and the result.
    spec fn read16_spec(state: Self::V, address: u32) -> (Self::V, Result<u16, BusFault>);

    /// Writing the half-word `value` at `address`: the next state and the result.
    spec fn write16_spec(state: Self::V, address: u32, value: u16) -> (
        Self::V,
        Result<(), BusFault>,
    );

    /// Reading the word at `address` without side effects.
    spec fn read32_spec(state: Self::V, address: u32) -> Result<u32, BusFault>;

    /// Reading the word at `address` as the hart does: the next state and the result.
    spec fn read32_mut_spec(state: Self::V, address: u32) -> (Self::V, Result<u32, BusFault>);

    /// Writing the word `value` at `address`: the next state and the result.
    spec fn write32_spec(state: Self::V, address: u32, value: u32) -> (
        Self::V,
        Result<(), BusFault>,
    );

    fn read8(&mut self, address: u32) -> (r: Result<u8, BusFault>)
        requires
            Self::valid(old(self)@),
        ensures
            Self::valid(final(self)@),
            (final(self)@, r) == Self::read8_spec(old(self)@, address),
    ;

    fn write8(&mut self, address: u32, value: u8) -> (r: Result<(), BusFault>)
        requires
            Self::valid(old(self)@),
        ensures
            Self::valid(final(self)@),
            (final(self)@, r) == Self::write8_spec(old(self)@, address, value),
    ;

    /// Reads a little-endian half-word from two byte reads; odd addresses are refused.
    fn read16(&mut self, address: u32) -> (r: Result<u16, BusFault>)
        requires
            Self::valid(old(self)@),
        ensures
            Self::valid(final(self)@),
            (final(self)@, r) == Self::read16_spec(old(self)@, address),
    ;

    fn read32(&self, address: u32) -> (r: Result<u32, BusFault>)
        requires
            Self::valid(self@),
        ensures
            r == Self::read32_spec(self@, address),
    ;

    /// Writes a little-endian half-word as two byte writes; odd addresses are refused.
    fn write16(&mut self, address: u32, value: u16) -> (r: Result<(), BusFault>)
        requires
            Self::valid(old(self)@),
        ensures
            Self::valid(final(self)@),
            (final(self)@, r) == Self::write16_spec(old(self)@, address, value),
    ;

    fn read32_mut(&mut self, address: u32) -> (r: Result<u32, BusFault>)
        requires
            Self::valid(old(self)@),
        ensures
            Self::valid(final(self)@),
            (final(self)@, r) == Self::read32_mut_spec(old(self)@, address),
    ;

    fn write32(&mut self, address: u32, value: u32) -> (r: Result<(), BusFault>)
        requires
            Self::valid(old(self)@),
        ensures
            Self::valid(final(self)@),
            (final(self)@, r) == Self::write32_spec(old(self)@, address, value),
    ;
}

/// A half-word read: odd addresses are refused, otherwise the byte at `address` then the byte
/// after it are read, and the half-word is little-endian.
pub open spec fn bytewise_read16<S>(
    read8: spec_fn(S, u32) -> (S, Result<u8, BusFault>),
    state: S,
    address: u32,
) -> (S, Result<u16, BusFault>) {
    if address % 2 != 0 {
        (state, Err(BusFault::Unaligned { address }))
    } else {
        let (s1, lo) = read8(state, address);
        match lo {
            Err(e) => (s1, Err(e)),
            Ok(lo) => {
                let (s2, hi) = read8(s1, address.wrapping_add(1));
                match hi {
                    Err(e) => (s2, Err(e)),
                    Ok(hi) => (s2, Ok((lo as int + 0x100 * hi as int) as u16)),
                }
            },
        }
    }
}

/// A half-word write: odd addresses are refused, otherwise the low byte then the high byte are
/// written, stopping at the first failure.
pub open spec fn bytewise_write16<S>(
    write8: spec_fn(S, u32, u8) -> (S, Result<(), BusFault>),
    state: S,
    address: u32,
    value: u16,
) -> (S, Result<(), BusFault>) {
    if address % 2 != 0 {
        (state, Err(BusFault::Unaligned { address }))
    } else {
        let (s1, r) = write8(state, address, (value % 0x100) as u8);
        match r {
            Err(e) => (s1, Err(e)),
            Ok(()) => write8(s1, address.wrapping_add(1), (value / 0x100) as u8),
        }
    }
}

/// Four byte reads at `address` and the three bytes after it, stopping at the first failure;
/// the word is little-endian.
pub open spec fn read_bytes32_spec<S>(
    read8: spec_fn(S, u32) -> (S, Result<u8, BusFault>),
    state: S,
    address: u32,
) -> (S, Result<u32, BusFault>) {
    let (s0, r0) = read8(state, address);
    match r0 {
        Err(e) => (s0, Err(e)),
        Ok(b0) => {
            let (s1, r1) = read8(s0, address.wrapping_add(1));
            match r1 {
                Err(e) => (s1, Err(e)),
                Ok(b1) => {
                    let (s2, r2) = read8(s1, address.wrapping_add(2));
                    match r2 {
                        Err(e) => (s2, Err(e)),
                        Ok(b2) => {
                            let (s3, r3) = read8(s2, address.wrapping_add(3));
                            match r3 {
                                Err(e) => (s3, Err(e)),
                                Ok(b3) => (s3, Ok(le_word(b0, b1, b2, b3))),
                            }
                        },
                    }
                },
            }
        },
    }
}

/// Reads the word at `address` byte by byte (no alignment check here).
pub fn read_bytes32<B: Bus>(bus: &mut B, address: u32) -> (r: Result<u32, BusFault>)
    requires
        B::valid(old(bus)@),
    ensures
        B::valid(final(bus)@),
        (final(bus)@, r) == read_bytes32_spec(|s: B::V, a: u32| B::read8_spec(s, a), old(bus)@, address),
{
    let b0 = match bus.read8(address) {
        Ok(v) => v,
        Err(e) => return Err(e),
    };
    let b1 = match bus.read8(address.wrapping_add(1)) {
        Ok(v) => v,
        Err(e) => return Err(e),
    };
    let b2 = match bus.read8(address.wrapping_add(2)) {
        Ok(v) => v,
        Err(e) => return Err(e),
    };
    let b3 = match bus.read8(address.wrapping_add(3)) {
        Ok(v) => v,
        Err(e) => return Err(e),
    };
    Ok(assemble_le(b0, b1, b2, b3))
}

/// The little-endian word made of four bytes.
pub fn assemble_le(b0: u8, b1: u8, b2: u8, b3: u8) -> (w: u32)
    ensures
        w == le_word(b0, b1, b2, b3),
        w as int == b0 as int + 0x100 * b1 as int + 0x1_0000 * b2 as int + 0x100_0000 * b3 as int,
{
    let x0 = b0 as u32;
    let x1 = b1 as u32;
    let x2 = b2 as u32;
    let x3 = b3 as u32;
    let w = x0 | (x1 << 8) | (x2 << 16) | (x3 << 24);
    assert(w == x0 + 0x100 * x1 + 0x1_0000 * x2 + 0x100_0000 * x3) by (bit_vector)
        requires
            x0 < 0x100,
            x1 < 0x100,
            x2 < 0x100,
            x3 < 0x100,
            w == x0 | (x1 << 8) | (x2 << 16) | (x3 << 24),
    ;
    w
}


/// Replacing byte `k` of a word and reading byte `k` back gives the new byte; every other byte
/// of the word is unchanged.
pub proof fn lemma_with_byte(word: u32, k: int, value: u8, j: int)
    requires
        0 <= k < 4,
        0 <= j < 4,
    ensures
        byte_of(with_byte(word, k, value), k) == value,
        j != k ==> byte_of(with_byte(word, k, value), j) == byte_of(word, j),
{
    let kk = (8 * k) as u32;
    let jj = (8 * j) as u32;
    assert(((((word & !(0xffu32 << kk)) | ((value as u32) << kk)) >> kk) & 0xff) as u8 == value)
        by (bit_vector)
        requires
            kk == 0 || kk == 8 || kk == 16 || kk == 24,
    ;
    assert(jj != kk ==> ((((word & !(0xffu32 << kk)) | ((value as u32) << kk)) >> jj) & 0xff)
        == ((word >> jj) & 0xff)) by (bit_vector)
        requires
            kk == 0 || kk == 8 || kk == 16 || kk == 24,
            jj == 0 || jj == 8 || jj == 16 || jj == 24,
    ;
}

} // verus!
