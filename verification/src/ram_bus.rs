use vstd::prelude::*;
use crate::bus::{
    lemma_with_byte,
    Bus, BusFault, GPIO_OUT, byte_of, with_byte, bytewise_read16, bytewise_write16,
    read_bytes32_spec, assemble_le,
};

verus! {

/// A word-addressed RAM of `WORDS` words at address 0, plus one GPIO output latch at `GPIO_OUT`.
#[derive(Clone, Debug)]
pub struct RamBus<const WORDS: usize> {
    words: Vec<u32>,
    gpio_out: u32,
}

impl<const WORDS: usize> View for RamBus<WORDS> {
    /// The memory words and the GPIO output latch.
    type V = (Seq<u32>, u32);

    closed spec fn view(&self) -> (Seq<u32>, u32) {
        (self.words@, self.gpio_out)
    }
}

impl<const WORDS: usize> RamBus<WORDS> {
    /// A RAM of `WORDS` zero words with the GPIO latch cleared.
    pub fn new() -> (r: Self)
        ensures
            Self::valid(r@),
            r@.0 == Seq::new(WORDS as nat, |i: int| 0u32),
            r@.1 == 0,
    {
        let words = vec![0u32; WORDS];
        let r = RamBus { words, gpio_out: 0 };
        assert(r@.0 =~= Seq::new(WORDS as nat, |i: int| 0u32));
        r
    }

    /// Stores `word` as memory word number `index` (byte address `4 * index`).
    pub fn load_word(&mut self, index: usize, word: u32) -> (r: Result<(), BusFault>)
        requires
            Self::valid(old(self)@),
        ensures
            Self::valid(final(self)@),
            index < WORDS ==> r is Ok && final(self)@ == (old(self)@.0.update(index as int, word), old(self)@.1),
            index >= WORDS ==> r == Err::<(), BusFault>(
                BusFault::OutOfRange { address: ((4 * index) % 0x1_0000_0000) as u32 },
            ) && final(self)@ == old(self)@,
    {
        if index < WORDS {
            self.words.set(index, word);
            Ok(())
        } else {
            let address = (index as u32).wrapping_mul(4);
            assert(address == ((4 * index) % 0x1_0000_0000) as u32) by (bit_vector)
                requires
                    address == (index as u32).wrapping_mul(4),
            ;
            Err(BusFault::OutOfRange { address })
        }
    }

    /// The GPIO output latch.
    pub fn gpio_out(&self) -> (v: u32)
        ensures
            v == self@.1,
    {
        self.gpio_out
    }

    fn memory_index(address: u32) -> (r: Result<usize, BusFault>)
        ensures
            address % 4 != 0 ==> r == Err::<usize, BusFault>(BusFault::Unaligned { address }),
            address % 4 == 0 ==> r == Ok::<usize, BusFault>((address / 4) as usize),
    {
        if address % 4 != 0 {
            return Err(BusFault::Unaligned { address });
        }
        Ok((address / 4) as usize)
    }
}

impl<const WORDS: usize> Default for RamBus<WORDS> {
    fn default() -> (r: Self)
        ensures
            Self::valid(r@),
            r@.0 == Seq::new(WORDS as nat, |i: int| 0u32),
            r@.1 == 0,
    {
        Self::new()
    }
}

/// The aligned word containing byte `address`.
pub open spec fn word_base(address: u32) -> u32 {
    (address - address % 4) as u32
}

impl<const WORDS: usize> Bus for RamBus<WORDS> {
    open spec fn valid(state: (Seq<u32>, u32)) -> bool {
        state.0.len() == WORDS
    }

    /// A byte is read out of its word; the word read decides the fault.
    open spec fn read8_spec(state: (Seq<u32>, u32), address: u32) -> ((Seq<u32>, u32), Result<u8, BusFault>) {
        (
            state,
            match Self::read32_spec(state, word_base(address)) {
                Ok(w) => Ok(byte_of(w, (address % 4) as int)),
                Err(e) => Err(e),
            },
        )
    }

    /// A byte is written by reading its word and writing it back with the byte replaced.
    open spec fn write8_spec(state: (Seq<u32>, u32), address: u32, value: u8) -> ((Seq<u32>, u32), Result<(), BusFault>) {
        match Self::read32_spec(state, word_base(address)) {
            Ok(w) => Self::write32_spec(state, word_base(address), with_byte(w, (address % 4) as int, value)),
            Err(e) => (state, Err(e)),
        }
    }

    open spec fn read16_spec(state: (Seq<u32>, u32), address: u32) -> ((Seq<u32>, u32), Result<u16, BusFault>) {
        bytewise_read16(|s: (Seq<u32>, u32), a: u32| Self::read8_spec(s, a), state, address)
    }

    open spec fn write16_spec(state: (Seq<u32>, u32), address: u32, value: u16) -> ((Seq<u32>, u32), Result<(), BusFault>) {
        bytewise_write16(|s: (Seq<u32>, u32), a: u32, v: u8| Self::write8_spec(s, a, v), state, address, value)
    }

    /// `GPIO_OUT` reads the latch; otherwise the address must be word-aligned and inside the RAM.
    open spec fn read32_spec(state: (Seq<u32>, u32), address: u32) -> Result<u32, BusFault> {
        if address == GPIO_OUT {
            Ok(state.1)
        } else if address % 4 != 0 {
            Err(BusFault::Unaligned { address })
        } else if address / 4 < WORDS {
            Ok(state.0[(address / 4) as int])
        } else {
            Err(BusFault::OutOfRange { address })
        }
    }

    open spec fn read32_mut_spec(state: (Seq<u32>, u32), address: u32) -> ((Seq<u32>, u32), Result<u32, BusFault>) {
        if address % 4 != 0 {
            (state, Err(BusFault::Unaligned { address }))
        } else {
            read_bytes32_spec(|s: (Seq<u32>, u32), a: u32| Self::read8_spec(s, a), state, address)
        }
    }

    /// `GPIO_OUT` sets the latch; otherwise the address must be word-aligned and inside the RAM.
    open spec fn write32_spec(state: (Seq<u32>, u32), address: u32, value: u32) -> ((Seq<u32>, u32), Result<(), BusFault>) {
        if address == GPIO_OUT {
            ((state.0, value), Ok(()))
        } else if address % 4 != 0 {
            (state, Err(BusFault::Unaligned { address }))
        } else if address / 4 < WORDS {
            ((state.0.update((address / 4) as int, value), state.1), Ok(()))
        } else {
            (state, Err(BusFault::OutOfRange { address }))
        }
    }

    fn read8(&mut self, address: u32) -> (r: Result<u8, BusFault>) {
        let low = address % 4;
        let aligned = address - low;
        let shift = low * 8;
        let w = match self.read32(aligned) {
            Ok(w) => w,
            Err(e) => return Err(e),
        };
        Ok(((w >> shift) & 0xff) as u8)
    }

    fn write8(&mut self, address: u32, value: u8) -> (r: Result<(), BusFault>) {
        let low = address % 4;
        let aligned = address - low;
        let shift = low * 8;
        let mask = !(0xffu32 << shift);
        let current = match self.read32(aligned) {
            Ok(w) => w,
            Err(e) => return Err(e),
        };
        self.write32(aligned, (current & mask) | ((value as u32) << shift))
    }

    fn read16(&mut self, address: u32) -> (r: Result<u16, BusFault>) {
        if address % 2 != 0 {
            return Err(BusFault::Unaligned { address });
        }
        let lo = match self.read8(address) {
            Ok(v) => v as u16,
            Err(e) => return Err(e),
        };
        let hi = match self.read8(address.wrapping_add(1)) {
            Ok(v) => v as u16,
            Err(e) => return Err(e),
        };
        Ok(lo + 0x100 * hi)
    }

    fn write16(&mut self, address: u32, value: u16) -> (r: Result<(), BusFault>) {
        if address % 2 != 0 {
            return Err(BusFault::Unaligned { address });
        }
        let lo = (value % 0x100) as u8;
        let hi = (value / 0x100) as u8;
        match self.write8(address, lo) {
            Ok(()) => {},
            Err(e) => return Err(e),
        }
        self.write8(address.wrapping_add(1), hi)
    }

    fn read32(&self, address: u32) -> (r: Result<u32, BusFault>) {
        if address == GPIO_OUT {
            return Ok(self.gpio_out);
        }
        let index = match Self::memory_index(address) {
            Ok(i) => i,
            Err(e) => return Err(e),
        };
        if index < self.words.len() {
            Ok(self.words[index])
        } else {
            Err(BusFault::OutOfRange { address })
        }
    }

    fn read32_mut(&mut self, address: u32) -> (r: Result<u32, BusFault>) {
        if address % 4 != 0 {
            return Err(BusFault::Unaligned { address });
        }
        let b0 = match self.read8(address) {
            Ok(v) => v,
            Err(e) => return Err(e),
        };
        let b1 = match self.read8(address.wrapping_add(1)) {
            Ok(v) => v,
            Err(e) => return Err(e),
        };
        let b2 = match self.read8(address.wrapping_add(2)) {
            Ok(v) => v,
            Err(e) => return Err(e),
        };
        let b3 = match self.read8(address.wrapping_add(3)) {
            Ok(v) => v,
            Err(e) => return Err(e),
        };
        Ok(assemble_le(b0, b1, b2, b3))
    }

    fn write32(&mut self, address: u32, value: u32) -> (r: Result<(), BusFault>) {
        if address == GPIO_OUT {
            self.gpio_out = value;
            return Ok(());
        }
        let index = match Self::memory_index(address) {
            Ok(i) => i,
            Err(e) => return Err(e),
        };
        if index < self.words.len() {
            self.words.set(index, value);
            Ok(())
        } else {
            Err(BusFault::OutOfRange { address })
        }
    }
}


/// A word written to the RAM bus reads back unchanged.
pub proof fn law_ram_word_reads_back<const WORDS: usize>(
    state: (Seq<u32>, u32),
    address: u32,
    value: u32,
)
    requires
        RamBus::<WORDS>::valid(state),
        RamBus::<WORDS>::write32_spec(state, address, value).1 is Ok,
    ensures
        RamBus::<WORDS>::read32_spec(RamBus::<WORDS>::write32_spec(state, address, value).0, address)
            == Ok::<u32, BusFault>(value),
{
}

/// Writing a word leaves every other word address reading as before.
pub proof fn law_ram_word_write_is_local<const WORDS: usize>(
    state: (Seq<u32>, u32),
    address: u32,
    value: u32,
    other: u32,
)
    requires
        RamBus::<WORDS>::valid(state),
        other != address,
    ensures
        RamBus::<WORDS>::read32_spec(RamBus::<WORDS>::write32_spec(state, address, value).0, other)
            == RamBus::<WORDS>::read32_spec(state, other),
{
}

/// A byte written to the RAM bus reads back unchanged, and the other bytes of every word keep
/// their values.
pub proof fn law_ram_byte_reads_back<const WORDS: usize>(
    state: (Seq<u32>, u32),
    address: u32,
    value: u8,
    other: u32,
)
    requires
        RamBus::<WORDS>::valid(state),
        RamBus::<WORDS>::write8_spec(state, address, value).1 is Ok,
    ensures
        RamBus::<WORDS>::read8_spec(RamBus::<WORDS>::write8_spec(state, address, value).0, address).1
            == Ok::<u8, BusFault>(value),
        other != address ==> RamBus::<WORDS>::read8_spec(
            RamBus::<WORDS>::write8_spec(state, address, value).0,
            other,
        ).1 == RamBus::<WORDS>::read8_spec(state, other).1,
{
    let k = (address % 4) as int;
    let j = (other % 4) as int;
    let base = word_base(address);
    let w = RamBus::<WORDS>::read32_spec(state, base)->Ok_0;
    lemma_with_byte(w, k, value, j);
    if word_base(other) != base {
        law_ram_word_write_is_local::<WORDS>(state, base, with_byte(w, k, value), word_base(other));
    } else {
        assert(j != k || other == address) by {
            assert(other == word_base(other) + other % 4);
            assert(address == base + address % 4);
        }
    }
}

/// A word stored by `load_word` is what the hart reads at byte address `4 * index`.
pub proof fn law_loaded_word_reads_back<const WORDS: usize>(
    state: (Seq<u32>, u32),
    index: usize,
    word: u32,
)
    requires
        RamBus::<WORDS>::valid(state),
        index < WORDS,
        4 * index < 0x1_0000_0000,
        4 * index != GPIO_OUT,
    ensures
        RamBus::<WORDS>::read32_spec((state.0.update(index as int, word), state.1), (4 * index) as u32)
            == Ok::<u32, BusFault>(word),
{
}

/// The hart's word read (four byte reads) of an aligned RAM word gives that word and changes
/// nothing.
pub proof fn law_ram_hart_word_read<const WORDS: usize>(state: (Seq<u32>, u32), address: u32)
    requires
        RamBus::<WORDS>::valid(state),
        address % 4 == 0,
        address / 4 < WORDS,
        address != GPIO_OUT,
    ensures
        RamBus::<WORDS>::read32_mut_spec(state, address) == (
            state,
            Ok::<u32, BusFault>(state.0[(address / 4) as int]),
        ),
{
    let w = state.0[(address / 4) as int];
    assert(address.wrapping_add(1) == address + 1 && address.wrapping_add(2) == address + 2
        && address.wrapping_add(3) == address + 3);
    assert(word_base(address) == address && word_base((address + 1) as u32) == address
        && word_base((address + 2) as u32) == address && word_base((address + 3) as u32) == address);
    crate::board_bus::lemma_le_word_of_bytes(w);
}

} // verus!
