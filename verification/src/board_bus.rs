use vstd::prelude::*;
use crate::alu::{add32, add_words};
use crate::bus::{
    Bus, BusFault, GPIOA_BASE, GPIOC_BASE, GPIOD_BASE, GPIO_OUT_OFFSET, GPIO_BSHR_OFFSET,
    GPIO_BCR_OFFSET, byte_of, with_byte, le_word, bytewise_read16, bytewise_write16, assemble_le,
};

verus! {

/// Base address of timer 2.
pub const TIM2_BASE: u32 = 0x4000_0000;

/// Base address of I2C1.
pub const I2C1_BASE: u32 = 0x4000_5400;

/// Base address of AFIO.
pub const AFIO_BASE: u32 = 0x4001_0000;

/// Base address of EXTI.
pub const EXTI_BASE: u32 = 0x4001_0400;

/// Base address of ADC1.
pub const ADC1_BASE: u32 = 0x4001_2400;

/// Base address of timer 1.
pub const TIM1_BASE: u32 = 0x4001_2c00;

/// Base address of SPI1.
pub const SPI1_BASE: u32 = 0x4001_3000;

/// Base address of USART1.
pub const USART1_BASE: u32 = 0x4001_3800;

/// Base address of DMA1 (its interrupt status register).
pub const DMA1_BASE: u32 = 0x4002_0000;

/// How many distinct peripheral registers the board bus remembers.
pub const PERIPHERAL_REGISTER_SLOTS: usize = 128;

/// How many bytes each serial output capture keeps.
pub const SERIAL_BUFFER_BYTES: usize = 256;

/// Start of RAM in the board's address map.
pub const RAM_BASE: u32 = 0x2000_0000;

/// Address of the SysTick control register.
pub const SYSTICK_BASE: u32 = 0xe000_f000;

/// Address of the RCC control register.
pub const RCC_BASE: u32 = 0x4002_1000;

/// Address of the flash access control register.
pub const FLASH_BASE: u32 = 0x4002_2000;

/// The three registers of a GPIO port that the board bus models.
#[derive(Clone, Copy, Debug, Default, PartialEq, Eq, Structural)]
pub struct GpioPort {
    /// Configuration register (low).
    pub cfglr: u32,
    /// Output data register.
    pub out: u32,
    /// How many writes the set/reset and clear registers have seen (modulo 2^32).
    pub bshr_writes: u32,
}

/// The observable state of a `BoardBus`.
#[verifier::ext_equal]
pub struct BoardBusState {
    pub flash: Seq<u8>,
    pub ram: Seq<u8>,
    pub gpio_a: GpioPort,
    pub gpio_c: GpioPort,
    pub gpio_d: GpioPort,
    pub rcc_ctlr: u32,
    pub rcc_cfgr0: u32,
    pub rcc_ahbpcenr: u32,
    pub rcc_apb2pcenr: u32,
    pub rcc_apb1pcenr: u32,
    pub flash_actlr: u32,
    pub systick_ctlr: u32,
    pub systick_count: u32,
    /// Remembered peripheral registers as (address, value), in order of first write.
    pub mmio: Seq<(u32, u32)>,
    pub usart1_tx: Seq<u8>,
    pub spi1_tx: Seq<u8>,
    pub i2c1_tx: Seq<u8>,
    pub dma_transfer_count: u32,
}

/// No address is remembered twice.
pub open spec fn distinct_addresses(mmio: Seq<(u32, u32)>) -> bool {
    forall|i: int, j: int| 0 <= i < j < mmio.len() ==> mmio[i].0 != mmio[j].0
}

/// The value remembered for the peripheral register at `address`, if any.
pub open spec fn stored_spec(mmio: Seq<(u32, u32)>, address: u32) -> Option<u32> {
    if exists|i: int| 0 <= i < mmio.len() && mmio[i].0 == address {
        Some(mmio[choose|i: int| 0 <= i < mmio.len() && mmio[i].0 == address].1)
    } else {
        None
    }
}

/// Remembering `value` for `address`: an address already remembered is updated in place, a
/// new one is appended while there is room, and is dropped otherwise.
pub open spec fn store_spec(mmio: Seq<(u32, u32)>, address: u32, value: u32) -> Seq<(u32, u32)> {
    if exists|i: int| 0 <= i < mmio.len() && mmio[i].0 == address {
        mmio.update(
            choose|i: int| 0 <= i < mmio.len() && mmio[i].0 == address,
            (address, value),
        )
    } else if mmio.len() < PERIPHERAL_REGISTER_SLOTS {
        mmio.push((address, value))
    } else {
        mmio
    }
}

/// A captured serial byte is kept while the capture has room.
pub open spec fn push_byte_spec(buffer: Seq<u8>, value: u8) -> Seq<u8> {
    if buffer.len() < SERIAL_BUFFER_BYTES {
        buffer.push(value)
    } else {
        buffer
    }
}

/// Reading memory: from `RAM_BASE` up the RAM, below it the flash.
pub open spec fn memory_read_spec(flash: Seq<u8>, ram: Seq<u8>, address: u32) -> Result<u8, BusFault> {
    if address >= RAM_BASE {
        if address - RAM_BASE < ram.len() {
            Ok(ram[address - RAM_BASE])
        } else {
            Err(BusFault::OutOfRange { address })
        }
    } else if address < flash.len() {
        Ok(flash[address as int])
    } else {
        Err(BusFault::OutOfRange { address })
    }
}

/// Writing memory: only the RAM is writable.
pub open spec fn memory_write_spec(ram: Seq<u8>, address: u32, value: u8) -> Result<Seq<u8>, BusFault> {
    if address >= RAM_BASE && address - RAM_BASE < ram.len() {
        Ok(ram.update(address - RAM_BASE, value))
    } else {
        Err(BusFault::OutOfRange { address })
    }
}

/// A memory write as a state change: only RAM bytes can be written.
pub open spec fn write_memory_spec(s: BoardBusState, address: u32, value: u8) -> (
    BoardBusState,
    Result<(), BusFault>,
) {
    match memory_write_spec(s.ram, address, value) {
        Ok(ram) => (BoardBusState { ram, ..s }, Ok(())),
        Err(e) => (s, Err(e)),
    }
}

/// BSHR semantics: the low half sets output bits, then the high half clears them.
pub open spec fn apply_bshr_spec(out: u32, value: u32) -> u32 {
    (out | (value & 0xffff)) & !((value >> 16) & 0xffff)
}

/// Reading the port registers at `base`: `None` when `address` is not in the port's window.
pub open spec fn read_gpio_spec(port: GpioPort, base: u32, address: u32) -> Option<u32> {
    if address < base {
        None
    } else {
        let offset = address - base;
        if offset == 0 {
            Some(port.cfglr)
        } else if offset == 0x08 || offset == GPIO_OUT_OFFSET {
            Some(port.out)
        } else if offset == GPIO_BSHR_OFFSET || offset == GPIO_BCR_OFFSET {
            Some(port.out)
        } else if offset < 0x18 {
            Some(0)
        } else {
            None
        }
    }
}

/// Whether `address` falls in the register window of the port at `base`.
pub open spec fn in_gpio_window(base: u32, address: u32) -> bool {
    address >= base && address - base < 0x18
}

/// Writing the port registers at `base` (the port is unchanged outside its window): the
/// configuration and output registers take the value, BSHR sets then clears output bits, BCR
/// clears them, and both count the write.
pub open spec fn write_gpio_spec(port: GpioPort, base: u32, address: u32, value: u32) -> GpioPort {
    if !in_gpio_window(base, address) {
        port
    } else {
        let offset = address - base;
        if offset == 0 {
            GpioPort { cfglr: value, ..port }
        } else if offset == GPIO_OUT_OFFSET {
            GpioPort { out: value, ..port }
        } else if offset == GPIO_BSHR_OFFSET {
            GpioPort {
                bshr_writes: ((port.bshr_writes + 1) % 0x1_0000_0000) as u32,
                out: apply_bshr_spec(port.out, value),
                ..port
            }
        } else if offset == GPIO_BCR_OFFSET {
            GpioPort {
                bshr_writes: ((port.bshr_writes + 1) % 0x1_0000_0000) as u32,
                out: port.out & !(value & 0xffff),
                ..port
            }
        } else {
            port
        }
    }
}

/// The address windows of the modelled peripherals.
pub open spec fn is_peripheral_mmio_spec(address: u32) -> bool {
    ||| TIM2_BASE <= address <= 0x4000_03ff
    ||| I2C1_BASE <= address <= 0x4000_57ff
    ||| AFIO_BASE <= address <= 0x4001_03ff
    ||| EXTI_BASE <= address <= 0x4001_07ff
    ||| GPIOA_BASE <= address <= 0x4001_0bff
    ||| GPIOC_BASE <= address <= 0x4001_13ff
    ||| GPIOD_BASE <= address <= 0x4001_17ff
    ||| ADC1_BASE <= address <= 0x4001_27ff
    ||| TIM1_BASE <= address <= 0x4001_2fff
    ||| SPI1_BASE <= address <= 0x4001_33ff
    ||| USART1_BASE <= address <= 0x4001_3bff
    ||| DMA1_BASE <= address <= 0x4002_03ff
    ||| 0x4002_1000 <= address <= 0x4002_13ff
    ||| 0x4002_2000 <= address <= 0x4002_23ff
    ||| 0xe000_e000 <= address <= 0xe000_ffff
}

/// The channel configuration registers of DMA1: channel `n` (from 1) at `DMA1_BASE + 8 + 20 *
/// (n - 1)`, for channels 1 ..= 6.
pub open spec fn is_dma_channel_control_spec(address: u32) -> bool {
    &&& DMA1_BASE + 0x08 <= address < DMA1_BASE + 0x78
    &&& (address - (DMA1_BASE + 0x08)) % 0x14 == 0
}

/// Transfer width in bytes for a PSIZE/MSIZE field.
pub open spec fn transfer_width_spec(bits: u32) -> u32 {
    if bits == 1 {
        2
    } else if bits == 2 {
        4
    } else {
        1
    }
}

pub fn apply_bshr(out: &mut u32, value: u32)
    ensures
        *final(out) == apply_bshr_spec(*old(out), value),
{
    let set = value & 0xffff;
    let reset = (value >> 16) & 0xffff;
    *out |= set;
    *out &= !reset;
}

pub fn read_gpio(port: &GpioPort, base: u32, address: u32) -> (r: Option<u32>)
    ensures
        r == read_gpio_spec(*port, base, address),
        r is Some <==> in_gpio_window(base, address),
{
    let offset = match address.checked_sub(base) {
        Some(o) => o,
        None => return None,
    };
    if offset == 0x00 {
        Some(port.cfglr)
    } else if offset == 0x08 || offset == GPIO_OUT_OFFSET {
        Some(port.out)
    } else if offset == GPIO_BSHR_OFFSET || offset == GPIO_BCR_OFFSET {
        Some(port.out)
    } else if offset < 0x18 {
        Some(0)
    } else {
        None
    }
}

pub fn write_gpio(port: &mut GpioPort, base: u32, address: u32, value: u32) -> (handled: bool)
    ensures
        handled == in_gpio_window(base, address),
        *final(port) == write_gpio_spec(*old(port), base, address, value),
{
    let offset = match address.checked_sub(base) {
        Some(o) => o,
        None => return false,
    };
    if offset == 0x00 {
        port.cfglr = value;
    } else if offset == GPIO_OUT_OFFSET {
        port.out = value;
    } else if offset == GPIO_BSHR_OFFSET {
        port.bshr_writes = port.bshr_writes.wrapping_add(1);
        apply_bshr(&mut port.out, value);
    } else if offset == GPIO_BCR_OFFSET {
        port.bshr_writes = port.bshr_writes.wrapping_add(1);
        port.out &= !(value & 0xffff);
    } else if offset < 0x18 {
    } else {
        return false;
    }
    true
}

pub fn push_byte(buffer: &mut Vec<u8>, value: u8)
    ensures
        final(buffer)@ == push_byte_spec(old(buffer)@, value),
{
    if buffer.len() < SERIAL_BUFFER_BYTES {
        buffer.push(value);
    }
}

pub fn transfer_width(bits: u32) -> (w: u32)
    ensures
        w == transfer_width_spec(bits),
        1 <= w <= 4,
{
    match bits {
        1 => 2,
        2 => 4,
        _ => 1,
    }
}

pub fn is_dma_channel_control(address: u32) -> (b: bool)
    ensures
        b == is_dma_channel_control_spec(address),
{
    if !(DMA1_BASE + 0x08 <= address && address < DMA1_BASE + 0x78) {
        return false;
    }
    (address - (DMA1_BASE + 0x08)) % 0x14 == 0
}

pub fn is_peripheral_mmio(address: u32) -> (b: bool)
    ensures
        b == is_peripheral_mmio_spec(address),
{
    (TIM2_BASE <= address && address <= 0x4000_03ff) || (I2C1_BASE <= address && address
        <= 0x4000_57ff) || (AFIO_BASE <= address && address <= 0x4001_03ff) || (EXTI_BASE
        <= address && address <= 0x4001_07ff) || (GPIOA_BASE <= address && address
        <= 0x4001_0bff) || (GPIOC_BASE <= address && address <= 0x4001_13ff) || (GPIOD_BASE
        <= address && address <= 0x4001_17ff) || (ADC1_BASE <= address && address
        <= 0x4001_27ff) || (TIM1_BASE <= address && address <= 0x4001_2fff) || (SPI1_BASE
        <= address && address <= 0x4001_33ff) || (USART1_BASE <= address && address
        <= 0x4001_3bff) || (DMA1_BASE <= address && address <= 0x4002_03ff) || (0x4002_1000
        <= address && address <= 0x4002_13ff) || (0x4002_2000 <= address && address
        <= 0x4002_23ff) || (0xe000_e000 <= address && address <= 0xe000_ffff)
}


/// The value of an optional register, 0 when absent.
pub open spec fn or_zero(v: Option<u32>) -> u32 {
    match v {
        Some(x) => x,
        None => 0,
    }
}

/// Fixed peripheral read values (other than GPIO and SysTick's counter).
pub open spec fn fixed_read_spec(s: BoardBusState, address: u32) -> Option<u32> {
    if address == SYSTICK_BASE {
        Some(s.systick_ctlr)
    } else if address == RCC_BASE {
        Some(s.rcc_ctlr | 0x0300_0003)
    } else if address == RCC_BASE + 0x04 {
        Some((s.rcc_cfgr0 & !0x0cu32) | 0x08)
    } else if address == RCC_BASE + 0x08 {
        Some(0)
    } else if address == RCC_BASE + 0x14 {
        Some(s.rcc_ahbpcenr)
    } else if address == RCC_BASE + 0x18 {
        Some(s.rcc_apb2pcenr)
    } else if address == RCC_BASE + 0x1c {
        Some(s.rcc_apb1pcenr)
    } else if address == FLASH_BASE {
        Some(s.flash_actlr)
    } else if address == USART1_BASE {
        Some(0x00c0)
    } else if address == USART1_BASE + 0x04 {
        Some(0)
    } else if address == SPI1_BASE + 0x08 {
        Some(0x0002)
    } else if address == SPI1_BASE + 0x0c {
        Some(0xff)
    } else if address == I2C1_BASE + 0x14 {
        Some(0x0080)
    } else if address == I2C1_BASE + 0x18 {
        Some(0)
    } else if address == I2C1_BASE + 0x10 {
        Some(0xff)
    } else if address == ADC1_BASE {
        Some(0x0002)
    } else if address == ADC1_BASE + 0x4c {
        Some(2048)
    } else if address == TIM1_BASE + 0x10 || address == TIM2_BASE + 0x10 {
        Some(1)
    } else if is_peripheral_mmio_spec(address) {
        Some(or_zero(stored_spec(s.mmio, address)))
    } else {
        None
    }
}

/// Reading a peripheral register: the GPIO ports A, C and D first, then the SysTick counter
/// (which advances by 50 000 on each read), then the fixed values; `None` when nothing answers.
pub open spec fn read_mmio_spec(s: BoardBusState, address: u32) -> (BoardBusState, Option<u32>) {
    if in_gpio_window(GPIOA_BASE, address) {
        (s, read_gpio_spec(s.gpio_a, GPIOA_BASE, address))
    } else if in_gpio_window(GPIOC_BASE, address) {
        (s, read_gpio_spec(s.gpio_c, GPIOC_BASE, address))
    } else if in_gpio_window(GPIOD_BASE, address) {
        (s, read_gpio_spec(s.gpio_d, GPIOD_BASE, address))
    } else if address == SYSTICK_BASE + 0x08 {
        let count = add32(s.systick_count, 50_000);
        (BoardBusState { systick_count: count, ..s }, Some(count))
    } else {
        (s, fixed_read_spec(s, address))
    }
}

/// What a DMA channel is programmed to do.
pub struct DmaPlan {
    pub count: u32,
    pub width: u32,
    pub mem2mem: bool,
    pub to_peripheral: bool,
    pub peripheral_increment: bool,
    pub memory_increment: bool,
    pub peripheral: u32,
    pub memory: u32,
}

/// The plan of the channel whose configuration register is at `control_address`: the count
/// register (capped at 1024), the peripheral and memory address registers, and from the
/// configuration the MEM2MEM, DIR, PINC and MINC bits and the larger of the two sizes.
pub open spec fn dma_plan_spec(mmio: Seq<(u32, u32)>, control_address: u32) -> DmaPlan {
    let count = or_zero(stored_spec(mmio, add32(control_address, 0x04)));
    let control = or_zero(stored_spec(mmio, control_address));
    let psize = transfer_width_spec((control >> 8) & 0x03);
    let msize = transfer_width_spec((control >> 10) & 0x03);
    DmaPlan {
        count: if count < 1024 {
            count
        } else {
            1024
        },
        width: if psize >= msize {
            psize
        } else {
            msize
        },
        mem2mem: control & 0x4000 != 0,
        to_peripheral: control & 0x10 != 0,
        peripheral_increment: control & 0x40 != 0,
        memory_increment: control & 0x80 != 0,
        peripheral: or_zero(stored_spec(mmio, add32(control_address, 0x08))),
        memory: or_zero(stored_spec(mmio, add32(control_address, 0x0c))),
    }
}

/// Source and destination of element `index` of a transfer.
pub open spec fn dma_element_spec(p: DmaPlan, index: int) -> (u32, u32) {
    let step = (index * p.width) as u32;
    let mstep: u32 = if p.memory_increment {
        step
    } else {
        0
    };
    let pstep: u32 = if p.peripheral_increment {
        step
    } else {
        0
    };
    if p.mem2mem {
        (add32(p.peripheral, step), add32(p.memory, mstep))
    } else if p.to_peripheral {
        (add32(p.memory, mstep), add32(p.peripheral, pstep))
    } else {
        (add32(p.peripheral, pstep), add32(p.memory, mstep))
    }
}

/// Copying bytes `byte ..` of one element, byte by byte, until a read or write fails.
pub open spec fn copy_bytes_spec(
    flash: Seq<u8>,
    ram: Seq<u8>,
    src: u32,
    dst: u32,
    width: u32,
    byte: int,
) -> Seq<u8>
    decreases width - byte,
{
    if byte >= width || byte < 0 {
        ram
    } else {
        match memory_read_spec(flash, ram, add32(src, byte as u32)) {
            Err(_) => ram,
            Ok(v) => match memory_write_spec(ram, add32(dst, byte as u32), v) {
                Err(_) => ram,
                Ok(r) => copy_bytes_spec(flash, r, src, dst, width, byte + 1),
            },
        }
    }
}

/// Copying elements `index ..` of a transfer, in order.
pub open spec fn dma_copy_spec(flash: Seq<u8>, ram: Seq<u8>, p: DmaPlan, index: int) -> Seq<u8>
    decreases p.count - index,
{
    if index >= p.count || index < 0 {
        ram
    } else {
        let (src, dst) = dma_element_spec(p, index);
        dma_copy_spec(flash, copy_bytes_spec(flash, ram, src, dst, p.width, 0), p, index + 1)
    }
}

/// A DMA transfer on the channel at `control_address`: the elements are copied, the transfer
/// count advances and the transfer-complete flag of channel 1 is set in the status register.
pub open spec fn dma_spec(s: BoardBusState, control_address: u32) -> BoardBusState {
    let p = dma_plan_spec(s.mmio, control_address);
    BoardBusState {
        ram: dma_copy_spec(s.flash, s.ram, p, 0),
        dma_transfer_count: add32(s.dma_transfer_count, 1),
        mmio: store_spec(s.mmio, DMA1_BASE, or_zero(stored_spec(s.mmio, DMA1_BASE)) | 2),
        ..s
    }
}

/// Writing a peripheral register: the GPIO ports A, C and D first, then SysTick, RCC and flash
/// control, the serial data registers (captured and remembered), the DMA channel configuration
/// registers (remembered, and starting a transfer when the enable bit is set), then any other
/// register in a peripheral window (remembered). The flag says whether anything answered.
pub open spec fn write_mmio_spec(s: BoardBusState, address: u32, value: u32) -> (BoardBusState, bool) {
    if in_gpio_window(GPIOA_BASE, address) {
        (BoardBusState { gpio_a: write_gpio_spec(s.gpio_a, GPIOA_BASE, address, value), ..s }, true)
    } else if in_gpio_window(GPIOC_BASE, address) {
        (BoardBusState { gpio_c: write_gpio_spec(s.gpio_c, GPIOC_BASE, address, value), ..s }, true)
    } else if in_gpio_window(GPIOD_BASE, address) {
        (BoardBusState { gpio_d: write_gpio_spec(s.gpio_d, GPIOD_BASE, address, value), ..s }, true)
    } else if address == SYSTICK_BASE {
        (BoardBusState { systick_ctlr: value, ..s }, true)
    } else if address == RCC_BASE {
        (BoardBusState { rcc_ctlr: value | 0x0300_0003, ..s }, true)
    } else if address == RCC_BASE + 0x04 {
        (BoardBusState { rcc_cfgr0: (value & !0x0cu32) | 0x08, ..s }, true)
    } else if address == RCC_BASE + 0x08 {
        (s, true)
    } else if address == RCC_BASE + 0x14 {
        (BoardBusState { rcc_ahbpcenr: value, ..s }, true)
    } else if address == RCC_BASE + 0x18 {
        (BoardBusState { rcc_apb2pcenr: value, ..s }, true)
    } else if address == RCC_BASE + 0x1c {
        (BoardBusState { rcc_apb1pcenr: value, ..s }, true)
    } else if address == FLASH_BASE {
        (BoardBusState { flash_actlr: value, ..s }, true)
    } else if address == USART1_BASE + 0x04 {
        (
            BoardBusState {
                usart1_tx: push_byte_spec(s.usart1_tx, (value % 0x100) as u8),
                mmio: store_spec(s.mmio, address, value),
                ..s
            },
            true,
        )
    } else if address == SPI1_BASE + 0x0c {
        (
            BoardBusState {
                spi1_tx: push_byte_spec(s.spi1_tx, (value % 0x100) as u8),
                mmio: store_spec(s.mmio, address, value),
                ..s
            },
            true,
        )
    } else if address == I2C1_BASE + 0x10 {
        (
            BoardBusState {
                i2c1_tx: push_byte_spec(s.i2c1_tx, (value % 0x100) as u8),
                mmio: store_spec(s.mmio, address, value),
                ..s
            },
            true,
        )
    } else if is_dma_channel_control_spec(address) {
        let s1 = BoardBusState { mmio: store_spec(s.mmio, address, value), ..s };
        (
            if value % 2 != 0 {
                dma_spec(s1, address)
            } else {
                s1
            },
            true,
        )
    } else if is_peripheral_mmio_spec(address) {
        (BoardBusState { mmio: store_spec(s.mmio, address, value), ..s }, true)
    } else {
        (s, false)
    }
}

/// Writing the four bytes `k ..` of `value` little-endian at `address + k ..`, stopping at the
/// first byte that cannot be written.
pub open spec fn write_bytes_spec(ram: Seq<u8>, address: u32, value: u32, k: int) -> (
    Seq<u8>,
    Result<(), BusFault>,
)
    decreases 4 - k,
{
    if k >= 4 || k < 0 {
        (ram, Ok(()))
    } else {
        match memory_write_spec(ram, add32(address, k as u32), byte_of(value, k)) {
            Err(e) => (ram, Err(e)),
            Ok(r) => write_bytes_spec(r, address, value, k + 1),
        }
    }
}


/// The board's bus: `FLASH` bytes of flash at address 0, `RAM` bytes of RAM at `RAM_BASE`,
/// GPIO ports A, C and D, the RCC, flash and SysTick registers firmware touches, the serial
/// data registers (whose output is captured), DMA1, and any other peripheral register written
/// (remembered, up to `PERIPHERAL_REGISTER_SLOTS` of them).
#[derive(Clone, Debug)]
pub struct BoardBus<const FLASH: usize, const RAM: usize> {
    flash: Vec<u8>,
    ram: Vec<u8>,
    gpio_a: GpioPort,
    gpio_c: GpioPort,
    gpio_d: GpioPort,
    rcc_ctlr: u32,
    rcc_cfgr0: u32,
    rcc_ahbpcenr: u32,
    rcc_apb2pcenr: u32,
    rcc_apb1pcenr: u32,
    flash_actlr: u32,
    systick_ctlr: u32,
    systick_count: u32,
    mmio: Vec<(u32, u32)>,
    usart1_tx: Vec<u8>,
    spi1_tx: Vec<u8>,
    i2c1_tx: Vec<u8>,
    dma_transfer_count: u32,
}

impl<const FLASH: usize, const RAM: usize> View for BoardBus<FLASH, RAM> {
    type V = BoardBusState;

    closed spec fn view(&self) -> BoardBusState {
        BoardBusState {
            flash: self.flash@,
            ram: self.ram@,
            gpio_a: self.gpio_a,
            gpio_c: self.gpio_c,
            gpio_d: self.gpio_d,
            rcc_ctlr: self.rcc_ctlr,
            rcc_cfgr0: self.rcc_cfgr0,
            rcc_ahbpcenr: self.rcc_ahbpcenr,
            rcc_apb2pcenr: self.rcc_apb2pcenr,
            rcc_apb1pcenr: self.rcc_apb1pcenr,
            flash_actlr: self.flash_actlr,
            systick_ctlr: self.systick_ctlr,
            systick_count: self.systick_count,
            mmio: self.mmio@,
            usart1_tx: self.usart1_tx@,
            spi1_tx: self.spi1_tx@,
            i2c1_tx: self.i2c1_tx@,
            dma_transfer_count: self.dma_transfer_count,
        }
    }
}

/// The consistent states of a board bus with `flash_len` bytes of flash and `ram_len` of RAM.
pub open spec fn board_state_valid(s: BoardBusState, flash_len: nat, ram_len: nat) -> bool {
    &&& s.flash.len() == flash_len
    &&& s.ram.len() == ram_len
    &&& s.mmio.len() <= PERIPHERAL_REGISTER_SLOTS
    &&& distinct_addresses(s.mmio)
    &&& s.usart1_tx.len() <= SERIAL_BUFFER_BYTES
    &&& s.spi1_tx.len() <= SERIAL_BUFFER_BYTES
    &&& s.i2c1_tx.len() <= SERIAL_BUFFER_BYTES
}

/// The state of a freshly built board bus: zeroed memories and ports, the RCC reset values,
/// nothing remembered or captured.
pub open spec fn board_reset_state(flash_len: nat, ram_len: nat) -> BoardBusState {
    BoardBusState {
        flash: Seq::new(flash_len, |i: int| 0u8),
        ram: Seq::new(ram_len, |i: int| 0u8),
        gpio_a: GpioPort { cfglr: 0, out: 0, bshr_writes: 0 },
        gpio_c: GpioPort { cfglr: 0, out: 0, bshr_writes: 0 },
        gpio_d: GpioPort { cfglr: 0, out: 0, bshr_writes: 0 },
        rcc_ctlr: 0x0200_0000,
        rcc_cfgr0: 0x0000_0008,
        rcc_ahbpcenr: 0,
        rcc_apb2pcenr: 0,
        rcc_apb1pcenr: 0,
        flash_actlr: 0,
        systick_ctlr: 0,
        systick_count: 0,
        mmio: Seq::empty(),
        usart1_tx: Seq::empty(),
        spi1_tx: Seq::empty(),
        i2c1_tx: Seq::empty(),
        dma_transfer_count: 0,
    }
}

fn zeroed_bytes(n: usize) -> (v: Vec<u8>)
    ensures
        v@ == Seq::new(n as nat, |i: int| 0u8),
{
    let mut v: Vec<u8> = Vec::new();
    while v.len() < n
        invariant
            v.len() <= n,
            forall|i: int| 0 <= i < v.len() ==> v@[i] == 0,
        decreases n - v.len(),
    {
        v.push(0);
    }
    assert(v@ =~= Seq::new(n as nat, |i: int| 0u8));
    v
}

impl<const FLASH: usize, const RAM: usize> BoardBus<FLASH, RAM> {
    /// A board bus in its reset state.
    pub fn new() -> (b: Self)
        ensures
            Self::valid(b@),
            b@ == board_reset_state(FLASH as nat, RAM as nat),
    {
        let b = BoardBus {
            flash: zeroed_bytes(FLASH),
            ram: zeroed_bytes(RAM),
            gpio_a: GpioPort { cfglr: 0, out: 0, bshr_writes: 0 },
            gpio_c: GpioPort { cfglr: 0, out: 0, bshr_writes: 0 },
            gpio_d: GpioPort { cfglr: 0, out: 0, bshr_writes: 0 },
            rcc_ctlr: 0x0200_0000,
            rcc_cfgr0: 0x0000_0008,
            rcc_ahbpcenr: 0,
            rcc_apb2pcenr: 0,
            rcc_apb1pcenr: 0,
            flash_actlr: 0,
            systick_ctlr: 0,
            systick_count: 0,
            mmio: Vec::new(),
            usart1_tx: Vec::new(),
            spi1_tx: Vec::new(),
            i2c1_tx: Vec::new(),
            dma_transfer_count: 0,
        };
        assert(b@ =~= board_reset_state(FLASH as nat, RAM as nat));
        b
    }

    /// Copies a flash image to the start of flash; an image longer than the flash is refused
    /// with its length (modulo 2^32) as the address.
    pub fn load_flash(&mut self, bytes: &[u8]) -> (r: Result<(), BusFault>)
        requires
            Self::valid(old(self)@),
        ensures
            Self::valid(final(self)@),
            bytes@.len() > FLASH ==> r == Err::<(), BusFault>(
                BusFault::OutOfRange { address: (bytes@.len() % 0x1_0000_0000) as u32 },
            ) && final(self)@ == old(self)@,
            bytes@.len() <= FLASH ==> r is Ok && final(self)@ == (BoardBusState {
                flash: bytes@ + old(self)@.flash.subrange(bytes@.len() as int, FLASH as int),
                ..old(self)@
            }),
    {
        let n = bytes.len();
        if n > FLASH {
            let address = n as u32;
            assert(address == ((n as u64) % 0x1_0000_0000u64) as u32) by (bit_vector)
                requires
                    address == n as u32,
            ;
            return Err(BusFault::OutOfRange { address });
        }
        let ghost old_flash = self.flash@;
        let mut i: usize = 0;
        while i < bytes.len()
            invariant
                i <= bytes.len() <= FLASH,
                self.flash@.len() == FLASH,
                Self::valid(old(self)@),
                self@ == (BoardBusState { flash: self@.flash, ..old(self)@ }),
                self.flash@ == bytes@.subrange(0, i as int) + old_flash.subrange(
                    i as int,
                    FLASH as int,
                ),
                old_flash.len() == FLASH,
            decreases bytes.len() - i,
        {
            self.flash.set(i, bytes[i]);
            i = i + 1;
            assert(self.flash@ =~= bytes@.subrange(0, i as int) + old_flash.subrange(
                i as int,
                FLASH as int,
            ));
        }
        assert(bytes@.subrange(0, i as int) =~= bytes@);
        Ok(())
    }

    /// Port A's registers.
    pub fn gpio_a(&self) -> (p: GpioPort)
        ensures
            p == self@.gpio_a,
    {
        self.gpio_a
    }

    /// Port C's registers.
    pub fn gpio_c(&self) -> (p: GpioPort)
        ensures
            p == self@.gpio_c,
    {
        self.gpio_c
    }

    /// Port D's registers.
    pub fn gpio_d(&self) -> (p: GpioPort)
        ensures
            p == self@.gpio_d,
    {
        self.gpio_d
    }

    /// The bytes written to USART1's data register, oldest first.
    pub fn usart1_tx(&self) -> (b: &[u8])
        ensures
            b@ == self@.usart1_tx,
    {
        self.usart1_tx.as_slice()
    }

    /// The bytes written to SPI1's data register, oldest first.
    pub fn spi1_tx(&self) -> (b: &[u8])
        ensures
            b@ == self@.spi1_tx,
    {
        self.spi1_tx.as_slice()
    }

    /// The bytes written to I2C1's data register, oldest first.
    pub fn i2c1_tx(&self) -> (b: &[u8])
        ensures
            b@ == self@.i2c1_tx,
    {
        self.i2c1_tx.as_slice()
    }

    /// How many DMA transfers have run (modulo 2^32).
    pub fn dma_transfer_count(&self) -> (c: u32)
        ensures
            c == self@.dma_transfer_count,
    {
        self.dma_transfer_count
    }

    fn read_memory(&self, address: u32) -> (r: Result<u8, BusFault>)
        requires
            Self::valid(self@),
        ensures
            r == memory_read_spec(self@.flash, self@.ram, address),
    {
        if let Some(index) = address.checked_sub(RAM_BASE) {
            if (index as usize) < self.ram.len() {
                return Ok(self.ram[index as usize]);
            }
            return Err(BusFault::OutOfRange { address });
        }
        if (address as usize) < self.flash.len() {
            Ok(self.flash[address as usize])
        } else {
            Err(BusFault::OutOfRange { address })
        }
    }

    fn write_memory(&mut self, address: u32, value: u8) -> (r: Result<(), BusFault>)
        requires
            Self::valid(old(self)@),
        ensures
            Self::valid(final(self)@),
            (final(self)@, r) == write_memory_spec(old(self)@, address, value),
    {
        if let Some(index) = address.checked_sub(RAM_BASE) {
            if (index as usize) < self.ram.len() {
                self.ram.set(index as usize, value);
                return Ok(());
            }
            return Err(BusFault::OutOfRange { address });
        }
        Err(BusFault::OutOfRange { address })
    }

    fn read_stored_mmio(&self, address: u32) -> (r: Option<u32>)
        requires
            Self::valid(self@),
        ensures
            r == stored_spec(self@.mmio, address),
    {
        let mut i: usize = 0;
        while i < self.mmio.len()
            invariant
                Self::valid(self@),
                i <= self.mmio.len(),
                forall|j: int| 0 <= j < i ==> self.mmio@[j].0 != address,
            decreases self.mmio.len() - i,
        {
            let (stored_address, value) = self.mmio[i];
            if stored_address == address {
                assert(self.mmio@[i as int].0 == address);
                proof {
                    let k = choose|k: int| 0 <= k < self.mmio@.len() && self.mmio@[k].0 == address;
                    assert(k == i);
                }
                return Some(value);
            }
            i = i + 1;
        }
        None
    }

    fn write_stored_mmio(&mut self, address: u32, value: u32)
        requires
            Self::valid(old(self)@),
        ensures
            Self::valid(final(self)@),
            final(self)@ == (BoardBusState {
                mmio: store_spec(old(self)@.mmio, address, value),
                ..old(self)@
            }),
    {
        let mut i: usize = 0;
        while i < self.mmio.len()
            invariant
                Self::valid(self@),
                i <= self.mmio.len(),
                self.mmio@ == old(self)@.mmio,
                self@ == old(self)@,
                forall|j: int| 0 <= j < i ==> self.mmio@[j].0 != address,
            decreases self.mmio.len() - i,
        {
            if self.mmio[i].0 == address {
                proof {
                    let k = choose|k: int| 0 <= k < self.mmio@.len() && self.mmio@[k].0 == address;
                    assert(k == i);
                }
                self.mmio.set(i, (address, value));
                return;
            }
            i = i + 1;
        }
        if self.mmio.len() < PERIPHERAL_REGISTER_SLOTS {
            self.mmio.push((address, value));
        }
    }
}

impl<const FLASH: usize, const RAM: usize> BoardBus<FLASH, RAM> {
    fn fixed_read(&self, address: u32) -> (r: Option<u32>)
        requires
            Self::valid(self@),
        ensures
            r == fixed_read_spec(self@, address),
    {
        if address == SYSTICK_BASE {
            Some(self.systick_ctlr)
        } else if address == RCC_BASE {
            Some(self.rcc_ctlr | 0x0300_0003)
        } else if address == RCC_BASE + 0x04 {
            Some((self.rcc_cfgr0 & !0x0cu32) | 0x08)
        } else if address == RCC_BASE + 0x08 {
            Some(0)
        } else if address == RCC_BASE + 0x14 {
            Some(self.rcc_ahbpcenr)
        } else if address == RCC_BASE + 0x18 {
            Some(self.rcc_apb2pcenr)
        } else if address == RCC_BASE + 0x1c {
            Some(self.rcc_apb1pcenr)
        } else if address == FLASH_BASE {
            Some(self.flash_actlr)
        } else if address == USART1_BASE {
            Some(0x00c0)
        } else if address == USART1_BASE + 0x04 {
            Some(0)
        } else if address == SPI1_BASE + 0x08 {
            Some(0x0002)
        } else if address == SPI1_BASE + 0x0c {
            Some(0xff)
        } else if address == I2C1_BASE + 0x14 {
            Some(0x0080)
        } else if address == I2C1_BASE + 0x18 {
            Some(0)
        } else if address == I2C1_BASE + 0x10 {
            Some(0xff)
        } else if address == ADC1_BASE {
            Some(0x0002)
        } else if address == ADC1_BASE + 0x4c {
            Some(2048)
        } else if address == TIM1_BASE + 0x10 || address == TIM2_BASE + 0x10 {
            Some(1)
        } else if is_peripheral_mmio(address) {
            Some(
                match self.read_stored_mmio(address) {
                    Some(v) => v,
                    None => 0,
                },
            )
        } else {
            None
        }
    }

    fn read_mmio32(&mut self, address: u32) -> (r: Option<u32>)
        requires
            Self::valid(old(self)@),
        ensures
            Self::valid(final(self)@),
            (final(self)@, r) == read_mmio_spec(old(self)@, address),
    {
        if let Some(value) = read_gpio(&self.gpio_a, GPIOA_BASE, address) {
            return Some(value);
        }
        if let Some(value) = read_gpio(&self.gpio_c, GPIOC_BASE, address) {
            return Some(value);
        }
        if let Some(value) = read_gpio(&self.gpio_d, GPIOD_BASE, address) {
            return Some(value);
        }
        if address == SYSTICK_BASE + 0x08 {
            self.systick_count = add_words(self.systick_count, 50_000);
            return Some(self.systick_count);
        }
        self.fixed_read(address)
    }

    #[verifier::rlimit(40)]
    fn write_mmio32(&mut self, address: u32, value: u32) -> (handled: bool)
        requires
            Self::valid(old(self)@),
        ensures
            Self::valid(final(self)@),
            (final(self)@, handled) == write_mmio_spec(old(self)@, address, value),
    {
        if write_gpio(&mut self.gpio_a, GPIOA_BASE, address, value) || write_gpio(
            &mut self.gpio_c,
            GPIOC_BASE,
            address,
            value,
        ) || write_gpio(&mut self.gpio_d, GPIOD_BASE, address, value) {
            return true;
        }
        if address == SYSTICK_BASE {
            self.systick_ctlr = value;
        } else if address == RCC_BASE {
            self.rcc_ctlr = value | 0x0300_0003;
        } else if address == RCC_BASE + 0x04 {
            self.rcc_cfgr0 = (value & !0x0cu32) | 0x08;
        } else if address == RCC_BASE + 0x08 {
        } else if address == RCC_BASE + 0x14 {
            self.rcc_ahbpcenr = value;
        } else if address == RCC_BASE + 0x18 {
            self.rcc_apb2pcenr = value;
        } else if address == RCC_BASE + 0x1c {
            self.rcc_apb1pcenr = value;
        } else if address == FLASH_BASE {
            self.flash_actlr = value;
        } else if address == USART1_BASE + 0x04 {
            let byte = (value % 0x100) as u8;
            push_byte(&mut self.usart1_tx, byte);
            self.write_stored_mmio(address, value);
        } else if address == SPI1_BASE + 0x0c {
            let byte = (value % 0x100) as u8;
            push_byte(&mut self.spi1_tx, byte);
            self.write_stored_mmio(address, value);
        } else if address == I2C1_BASE + 0x10 {
            let byte = (value % 0x100) as u8;
            push_byte(&mut self.i2c1_tx, byte);
            self.write_stored_mmio(address, value);
        } else if is_dma_channel_control(address) {
            self.write_stored_mmio(address, value);
            if value % 2 != 0 {
                self.perform_dma_transfer(address);
            }
        } else if is_peripheral_mmio(address) {
            self.write_stored_mmio(address, value);
        } else {
            return false;
        }
        true
    }

    fn copy_element(&mut self, src: u32, dst: u32, width: u32)
        requires
            Self::valid(old(self)@),
        ensures
            Self::valid(final(self)@),
            final(self)@ == (BoardBusState {
                ram: copy_bytes_spec(old(self)@.flash, old(self)@.ram, src, dst, width, 0),
                ..old(self)@
            }),
    {
        let ghost start = self@;
        let mut byte: u32 = 0;
        while byte < width
            invariant
                start == old(self)@,
                Self::valid(self@),
                self@ == (BoardBusState { ram: self@.ram, ..start }),
                copy_bytes_spec(start.flash, self@.ram, src, dst, width, byte as int)
                    == copy_bytes_spec(start.flash, start.ram, src, dst, width, 0),
            decreases width - byte,
        {
            let from = add_words(src, byte);
            let to = add_words(dst, byte);
            let value = match self.read_memory(from) {
                Ok(value) => value,
                Err(_) => {
                    assert(copy_bytes_spec(start.flash, self@.ram, src, dst, width, byte as int)
                        == self@.ram);
                    return ;
                },
            };
            let ghost before = self@.ram;
            if self.write_memory(to, value).is_err() {
                assert(copy_bytes_spec(start.flash, before, src, dst, width, byte as int)
                    == before);
                return ;
            }
            byte = byte + 1;
        }
    }

    fn perform_dma_transfer(&mut self, control_address: u32)
        requires
            Self::valid(old(self)@),
            is_dma_channel_control_spec(control_address),
        ensures
            Self::valid(final(self)@),
            final(self)@ == dma_spec(old(self)@, control_address),
    {
        let ghost start = self@;
        let channel_base = control_address;
        let raw_count = match self.read_stored_mmio(channel_base + 0x04) {
            Some(v) => v,
            None => 0,
        };
        let count = if raw_count < 1024 {
            raw_count
        } else {
            1024
        };
        let peripheral = match self.read_stored_mmio(channel_base + 0x08) {
            Some(v) => v,
            None => 0,
        };
        let memory = match self.read_stored_mmio(channel_base + 0x0c) {
            Some(v) => v,
            None => 0,
        };
        let control = match self.read_stored_mmio(channel_base) {
            Some(v) => v,
            None => 0,
        };
        let mem2mem = control & 0x4000 != 0;
        let dir_mem_to_peripheral = control & 0x10 != 0;
        let pinc = control & 0x40 != 0;
        let minc = control & 0x80 != 0;
        let psize = transfer_width((control >> 8) & 0x03);
        let msize = transfer_width((control >> 10) & 0x03);
        let width = if psize >= msize {
            psize
        } else {
            msize
        };
        let ghost plan = DmaPlan {
            count,
            width,
            mem2mem,
            to_peripheral: dir_mem_to_peripheral,
            peripheral_increment: pinc,
            memory_increment: minc,
            peripheral,
            memory,
        };
        assert(plan == dma_plan_spec(start.mmio, control_address));
        let mut index: u32 = 0;
        while index < count
            invariant
                start == old(self)@,
                Self::valid(self@),
                index <= count <= 1024,
                1 <= width <= 4,
                self@ == (BoardBusState { ram: self@.ram, ..start }),
                dma_copy_spec(start.flash, self@.ram, plan, index as int) == dma_copy_spec(
                    start.flash,
                    start.ram,
                    plan,
                    0,
                ),
                plan.count == count,
                plan.width == width,
                plan.mem2mem == mem2mem,
                plan.to_peripheral == dir_mem_to_peripheral,
                plan.peripheral_increment == pinc,
                plan.memory_increment == minc,
                plan.peripheral == peripheral,
                plan.memory == memory,
            decreases count - index,
        {
            assert(index * width <= 4096) by (nonlinear_arith)
                requires
                    index <= 1024,
                    width <= 4,
            ;
            let step = index * width;
            let mstep = if minc {
                step
            } else {
                0
            };
            let pstep = if pinc {
                step
            } else {
                0
            };
            let (src, dst) = if mem2mem {
                (add_words(peripheral, step), add_words(memory, mstep))
            } else if dir_mem_to_peripheral {
                (add_words(memory, mstep), add_words(peripheral, pstep))
            } else {
                (add_words(peripheral, pstep), add_words(memory, mstep))
            };
            assert((src, dst) == dma_element_spec(plan, index as int));
            self.copy_element(src, dst, width);
            index = index + 1;
        }
        self.dma_transfer_count = add_words(self.dma_transfer_count, 1);
        let status = match self.read_stored_mmio(DMA1_BASE) {
            Some(v) => v,
            None => 0,
        };
        self.write_stored_mmio(DMA1_BASE, status | 0x02);
    }
}

impl<const FLASH: usize, const RAM: usize> Default for BoardBus<FLASH, RAM> {
    fn default() -> (b: Self)
        ensures
            Self::valid(b@),
            b@ == board_reset_state(FLASH as nat, RAM as nat),
    {
        Self::new()
    }
}


/// The aligned word containing byte `address`.
pub open spec fn aligned_word(address: u32) -> u32 {
    (address - address % 4) as u32
}

impl<const FLASH: usize, const RAM: usize> Bus for BoardBus<FLASH, RAM> {
    open spec fn valid(state: BoardBusState) -> bool {
        board_state_valid(state, FLASH as nat, RAM as nat)
    }

    /// A byte in a peripheral window comes out of its register's word (0 when nothing answers);
    /// any other byte comes from memory.
    open spec fn read8_spec(state: BoardBusState, address: u32) -> (BoardBusState, Result<u8, BusFault>) {
        if is_peripheral_mmio_spec(aligned_word(address)) {
            let (s1, v) = read_mmio_spec(state, aligned_word(address));
            (s1, Ok(byte_of(or_zero(v), (address % 4) as int)))
        } else {
            (state, memory_read_spec(state.flash, state.ram, address))
        }
    }

    /// A byte in a peripheral window replaces its byte of the register's remembered value (0 if
    /// none), and the result is written as a register write; any other byte goes to memory.
    open spec fn write8_spec(state: BoardBusState, address: u32, value: u8) -> (BoardBusState, Result<(), BusFault>) {
        if is_peripheral_mmio_spec(aligned_word(address)) {
            let current = or_zero(stored_spec(state.mmio, aligned_word(address)));
            (
                write_mmio_spec(
                    state,
                    aligned_word(address),
                    with_byte(current, (address % 4) as int, value),
                ).0,
                Ok(()),
            )
        } else {
            write_memory_spec(state, address, value)
        }
    }

    open spec fn read16_spec(state: BoardBusState, address: u32) -> (BoardBusState, Result<u16, BusFault>) {
        bytewise_read16(|s: BoardBusState, a: u32| Self::read8_spec(s, a), state, address)
    }

    open spec fn write16_spec(state: BoardBusState, address: u32, value: u16) -> (BoardBusState, Result<(), BusFault>) {
        bytewise_write16(
            |s: BoardBusState, a: u32, v: u8| Self::write8_spec(s, a, v),
            state,
            address,
            value,
        )
    }

    /// A word read straight from memory (peripheral registers are not consulted): aligned,
    /// and all four bytes inside the RAM (from `RAM_BASE`) or the flash (below it).
    open spec fn read32_spec(state: BoardBusState, address: u32) -> Result<u32, BusFault> {
        if address % 4 != 0 {
            Err(BusFault::Unaligned { address })
        } else if address >= RAM_BASE {
            let i = address - RAM_BASE;
            if i + 4 <= state.ram.len() {
                Ok(le_word(state.ram[i], state.ram[i + 1], state.ram[i + 2], state.ram[i + 3]))
            } else {
                Err(BusFault::OutOfRange { address })
            }
        } else {
            let i = address as int;
            if i + 4 <= state.flash.len() {
                Ok(
                    le_word(
                        state.flash[i],
                        state.flash[i + 1],
                        state.flash[i + 2],
                        state.flash[i + 3],
                    ),
                )
            } else {
                Err(BusFault::OutOfRange { address })
            }
        }
    }

    /// A word read by the hart: aligned; a peripheral register if one answers, else memory.
    open spec fn read32_mut_spec(state: BoardBusState, address: u32) -> (BoardBusState, Result<u32, BusFault>) {
        if address % 4 != 0 {
            (state, Err(BusFault::Unaligned { address }))
        } else {
            let (s1, v) = read_mmio_spec(state, address);
            match v {
                Some(v) => (s1, Ok(v)),
                None => (s1, Self::read32_spec(s1, address)),
            }
        }
    }

    /// A word write: aligned; a peripheral register if one answers, else four bytes of memory,
    /// lowest address first, stopping at the first that cannot be written.
    open spec fn write32_spec(state: BoardBusState, address: u32, value: u32) -> (BoardBusState, Result<(), BusFault>) {
        if address % 4 != 0 {
            (state, Err(BusFault::Unaligned { address }))
        } else {
            let (s1, handled) = write_mmio_spec(state, address, value);
            if handled {
                (s1, Ok(()))
            } else {
                let (ram, r) = write_bytes_spec(s1.ram, address, value, 0);
                (BoardBusState { ram, ..s1 }, r)
            }
        }
    }

    fn read8(&mut self, address: u32) -> (r: Result<u8, BusFault>) {
        let low = address % 4;
        let aligned = address - low;
        if is_peripheral_mmio(aligned) {
            let shift = low * 8;
            let word = match self.read_mmio32(aligned) {
                Some(v) => v,
                None => 0,
            };
            return Ok(((word >> shift) & 0xff) as u8);
        }
        self.read_memory(address)
    }

    fn write8(&mut self, address: u32, value: u8) -> (r: Result<(), BusFault>) {
        let low = address % 4;
        let aligned = address - low;
        if is_peripheral_mmio(aligned) {
            let shift = low * 8;
            let mask = !(0xffu32 << shift);
            let current = match self.read_stored_mmio(aligned) {
                Some(v) => v,
                None => 0,
            };
            self.write_mmio32(aligned, (current & mask) | ((value as u32) << shift));
            return Ok(());
        }
        self.write_memory(address, value)
    }

    fn read16(&mut self, address: u32) -> (r: Result<u16, BusFault>) {
        if address % 2 != 0 {
            return Err(BusFault::Unaligned { address });
        }
        let lo = match self.read8(address) {
            Ok(v) => v as u16,
            Err(e) => return Err(e),
        };
        let hi = match self.read8(address.wrapping_add(1)) {
            Ok(v) => v as u16,
            Err(e) => return Err(e),
        };
        Ok(lo + 0x100 * hi)
    }

    fn write16(&mut self, address: u32, value: u16) -> (r: Result<(), BusFault>) {
        if address % 2 != 0 {
            return Err(BusFault::Unaligned { address });
        }
        let lo = (value % 0x100) as u8;
        let hi = (value / 0x100) as u8;
        match self.write8(address, lo) {
            Ok(()) => {},
            Err(e) => return Err(e),
        }
        self.write8(address.wrapping_add(1), hi)
    }

    fn read32(&self, address: u32) -> (r: Result<u32, BusFault>) {
        if address % 4 != 0 {
            return Err(BusFault::Unaligned { address });
        }
        if let Some(index) = address.checked_sub(RAM_BASE) {
            let index = index as usize;
            if index <= self.ram.len() && self.ram.len() - index >= 4 {
                return Ok(
                    assemble_le(
                        self.ram[index],
                        self.ram[index + 1],
                        self.ram[index + 2],
                        self.ram[index + 3],
                    ),
                );
            }
            return Err(BusFault::OutOfRange { address });
        }
        let index = address as usize;
        if index <= self.flash.len() && self.flash.len() - index >= 4 {
            Ok(
                assemble_le(
                    self.flash[index],
                    self.flash[index + 1],
                    self.flash[index + 2],
                    self.flash[index + 3],
                ),
            )
        } else {
            Err(BusFault::OutOfRange { address })
        }
    }

    fn read32_mut(&mut self, address: u32) -> (r: Result<u32, BusFault>) {
        if address % 4 != 0 {
            return Err(BusFault::Unaligned { address });
        }
        if let Some(value) = self.read_mmio32(address) {
            return Ok(value);
        }
        self.read32(address)
    }

    fn write32(&mut self, address: u32, value: u32) -> (r: Result<(), BusFault>) {
        if address % 4 != 0 {
            return Err(BusFault::Unaligned { address });
        }
        if self.write_mmio32(address, value) {
            return Ok(());
        }
        let ghost start = self@;
        let mut offset: u32 = 0;
        while offset < 4
            invariant
                (start, false) == write_mmio_spec(old(self)@, address, value),
                address % 4 == 0,
                Self::valid(self@),
                offset <= 4,
                self@ == (BoardBusState { ram: self@.ram, ..start }),
                ({
                    let (ram, r) = write_bytes_spec(self@.ram, address, value, offset as int);
                    (BoardBusState { ram, ..start }, r)
                }) == ({
                    let (ram, r) = write_bytes_spec(start.ram, address, value, 0);
                    (BoardBusState { ram, ..start }, r)
                }),
            decreases 4 - offset,
        {
            let shift = 8 * offset;
            let byte = ((value >> shift) & 0xff) as u8;
            assert(byte == byte_of(value, offset as int));
            let ghost before = self@.ram;
            match self.write_memory(add_words(address, offset), byte) {
                Ok(()) => {},
                Err(e) => {
                    assert(write_bytes_spec(before, address, value, offset as int) == (
                        before,
                        Err::<(), BusFault>(e),
                    ));
                    return Err(e);
                },
            }
            offset = offset + 1;
        }
        Ok(())
    }
}


/// A byte written to RAM reads back unchanged.
pub proof fn law_board_ram_byte_reads_back<const FLASH: usize, const RAM: usize>(
    state: BoardBusState,
    address: u32,
    value: u8,
)
    requires
        BoardBus::<FLASH, RAM>::valid(state),
        address >= RAM_BASE,
        address - RAM_BASE < RAM,
        !is_peripheral_mmio_spec(aligned_word(address)),
    ensures
        BoardBus::<FLASH, RAM>::write8_spec(state, address, value).1 is Ok,
        BoardBus::<FLASH, RAM>::read8_spec(
            BoardBus::<FLASH, RAM>::write8_spec(state, address, value).0,
            address,
        ).1 == Ok::<u8, BusFault>(value),
{
}

/// The four little-endian bytes of a word make the word again.
pub proof fn lemma_le_word_of_bytes(v: u32)
    ensures
        le_word(byte_of(v, 0), byte_of(v, 1), byte_of(v, 2), byte_of(v, 3)) == v,
{
    let x0 = (v >> 0u32) & 0xff;
    let x1 = (v >> 8u32) & 0xff;
    let x2 = (v >> 16u32) & 0xff;
    let x3 = (v >> 24u32) & 0xff;
    assert(x0 < 0x100 && x1 < 0x100 && x2 < 0x100 && x3 < 0x100 && v == x0 + 0x100 * x1 + 0x1_0000
        * x2 + 0x100_0000 * x3) by (bit_vector)
        requires
            x0 == (v >> 0u32) & 0xff,
            x1 == (v >> 8u32) & 0xff,
            x2 == (v >> 16u32) & 0xff,
            x3 == (v >> 24u32) & 0xff,
    ;
}

/// A word written to RAM (aligned, below the peripheral space) is accepted and reads back
/// unchanged; the store changes those four RAM bytes and nothing else of the bus.
pub proof fn law_board_ram_word_reads_back<const FLASH: usize, const RAM: usize>(
    state: BoardBusState,
    address: u32,
    value: u32,
)
    requires
        BoardBus::<FLASH, RAM>::valid(state),
        address % 4 == 0,
        address >= RAM_BASE,
        address - RAM_BASE + 4 <= RAM,
        !is_peripheral_mmio_spec(address),
    ensures
        BoardBus::<FLASH, RAM>::write32_spec(state, address, value).1 is Ok,
        BoardBus::<FLASH, RAM>::read32_spec(
            BoardBus::<FLASH, RAM>::write32_spec(state, address, value).0,
            address,
        ) == Ok::<u32, BusFault>(value),
        ({
            let s1 = BoardBus::<FLASH, RAM>::write32_spec(state, address, value).0;
            &&& s1 == BoardBusState { ram: s1.ram, ..state }
            &&& s1.ram.len() == state.ram.len()
            &&& forall|j: int|
                0 <= j < state.ram.len() && !(address - RAM_BASE <= j < address - RAM_BASE + 4)
                    ==> s1.ram[j] == state.ram[j]
        }),
{
    let i = address - RAM_BASE;
    assert(write_mmio_spec(state, address, value) == (state, false));
    let r1 = state.ram.update(i, byte_of(value, 0));
    let r2 = r1.update(i + 1, byte_of(value, 1));
    let r3 = r2.update(i + 2, byte_of(value, 2));
    let r4 = r3.update(i + 3, byte_of(value, 3));
    assert(add32(address, 0) == address && add32(address, 1) == address + 1 && add32(address, 2)
        == address + 2 && add32(address, 3) == address + 3);
    assert(write_bytes_spec(r4, address, value, 4) == (r4, Ok::<(), BusFault>(())));
    assert(write_bytes_spec(r3, address, value, 3) == (r4, Ok::<(), BusFault>(())));
    assert(write_bytes_spec(r2, address, value, 2) == (r4, Ok::<(), BusFault>(())));
    assert(write_bytes_spec(r1, address, value, 1) == (r4, Ok::<(), BusFault>(())));
    assert(write_bytes_spec(state.ram, address, value, 0) == (r4, Ok::<(), BusFault>(())));
    lemma_le_word_of_bytes(value);
}

/// A word access at an address that is not a multiple of four is refused and changes nothing.
pub proof fn law_board_unaligned_word_refused<const FLASH: usize, const RAM: usize>(
    state: BoardBusState,
    address: u32,
    value: u32,
)
    requires
        address % 4 != 0,
    ensures
        BoardBus::<FLASH, RAM>::write32_spec(state, address, value) == (
            state,
            Err::<(), BusFault>(BusFault::Unaligned { address }),
        ),
        BoardBus::<FLASH, RAM>::read32_mut_spec(state, address) == (
            state,
            Err::<u32, BusFault>(BusFault::Unaligned { address }),
        ),
{
}

/// A word store below `RAM_BASE` outside the peripheral windows is refused, since the flash is
/// read-only, and changes nothing.
pub proof fn law_board_flash_word_is_read_only<const FLASH: usize, const RAM: usize>(
    state: BoardBusState,
    address: u32,
    value: u32,
)
    requires
        BoardBus::<FLASH, RAM>::valid(state),
        address % 4 == 0,
        address < RAM_BASE,
    ensures
        BoardBus::<FLASH, RAM>::write32_spec(state, address, value) == (
            state,
            Err::<(), BusFault>(BusFault::OutOfRange { address }),
        ),
{
    assert(write_mmio_spec(state, address, value) == (state, false));
    assert(add32(address, 0) == address);
}

/// The flash cannot be written: a byte store below `RAM_BASE` outside the peripheral windows
/// fails and changes nothing.
pub proof fn law_board_flash_is_read_only<const FLASH: usize, const RAM: usize>(
    state: BoardBusState,
    address: u32,
    value: u8,
)
    requires
        BoardBus::<FLASH, RAM>::valid(state),
        address < RAM_BASE,
        !is_peripheral_mmio_spec(aligned_word(address)),
    ensures
        BoardBus::<FLASH, RAM>::write8_spec(state, address, value) == (
            state,
            Err::<(), BusFault>(BusFault::OutOfRange { address }),
        ),
{
}

/// After `load_flash`, each byte of the image reads back at its address.
pub proof fn law_board_flash_image_reads_back<const FLASH: usize, const RAM: usize>(
    state: BoardBusState,
    image: Seq<u8>,
    address: u32,
)
    requires
        BoardBus::<FLASH, RAM>::valid(state),
        image.len() <= FLASH,
        address < image.len(),
        address < RAM_BASE,
        !is_peripheral_mmio_spec(aligned_word(address)),
    ensures
        BoardBus::<FLASH, RAM>::read8_spec(
            BoardBusState {
                flash: image + state.flash.subrange(image.len() as int, FLASH as int),
                ..state
            },
            address,
        ).1 == Ok::<u8, BusFault>(image[address as int]),
{
}

/// Output bit `bit` (below 16) after a BSHR write: cleared when the reset bit `bit + 16` is
/// set (reset wins), else set when the set bit `bit` is set, else unchanged.
pub proof fn law_bshr_bit(out: u32, value: u32, bit: u32)
    requires
        bit < 16,
    ensures
        (apply_bshr_spec(out, value) >> bit) & 1 == if (value >> (bit + 16)) & 1 == 1 {
            0
        } else if (value >> bit) & 1 == 1 {
            1
        } else {
            (out >> bit) & 1
        },
        bit < 16 ==> (apply_bshr_spec(out, value) >> (bit + 16)) & 1 == (out >> (bit + 16)) & 1,
{
    assert(((((out | (value & 0xffff)) & !((value >> 16) & 0xffff)) >> bit) & 1) == (if (value >> (
    bit + 16)) & 1 == 1 {
        0
    } else if (value >> bit) & 1 == 1 {
        1
    } else {
        (out >> bit) & 1
    }) && ((((out | (value & 0xffff)) & !((value >> 16) & 0xffff)) >> (bit + 16)) & 1) == (out
        >> (bit + 16)) & 1) by (bit_vector)
        requires
            bit < 16,
    ;
}

/// A word written to the configuration register (offset 0) or the output data register
/// (offset `0x0c`) of GPIO port A, C or D reads back unchanged from that register.
pub proof fn law_board_gpio_register_reads_back<const FLASH: usize, const RAM: usize>(
    state: BoardBusState,
    base: u32,
    offset: u32,
    value: u32,
)
    requires
        BoardBus::<FLASH, RAM>::valid(state),
        base == GPIOA_BASE || base == GPIOC_BASE || base == GPIOD_BASE,
        offset == 0 || offset == GPIO_OUT_OFFSET,
    ensures
        ({
            let (s1, r) = BoardBus::<FLASH, RAM>::write32_spec(state, (base + offset) as u32, value);
            &&& r is Ok
            &&& BoardBus::<FLASH, RAM>::read32_mut_spec(s1, (base + offset) as u32) == (
                s1,
                Ok::<u32, BusFault>(value),
            )
        }),
{
}

/// A word store to a port's BSHR register applies it to that port's output, and to no other.
pub proof fn law_board_bshr_store<const FLASH: usize, const RAM: usize>(
    state: BoardBusState,
    value: u32,
)
    requires
        BoardBus::<FLASH, RAM>::valid(state),
    ensures
        ({
            let (s, r) = BoardBus::<FLASH, RAM>::write32_spec(
                state,
                (GPIOA_BASE + GPIO_BSHR_OFFSET) as u32,
                value,
            );
            r is Ok && s.gpio_a.out == apply_bshr_spec(state.gpio_a.out, value) && s.gpio_c
                == state.gpio_c && s.gpio_d == state.gpio_d
        }),
        ({
            let (s, r) = BoardBus::<FLASH, RAM>::write32_spec(
                state,
                (GPIOC_BASE + GPIO_BSHR_OFFSET) as u32,
                value,
            );
            r is Ok && s.gpio_c.out == apply_bshr_spec(state.gpio_c.out, value) && s.gpio_a
                == state.gpio_a && s.gpio_d == state.gpio_d
        }),
        ({
            let (s, r) = BoardBus::<FLASH, RAM>::write32_spec(
                state,
                (GPIOD_BASE + GPIO_BSHR_OFFSET) as u32,
                value,
            );
            r is Ok && s.gpio_d.out == apply_bshr_spec(state.gpio_d.out, value) && s.gpio_a
                == state.gpio_a && s.gpio_c == state.gpio_c
        }),
{
}

/// A word store to a port's BCR register clears the output bits named by its low half.
pub proof fn law_board_bcr_store<const FLASH: usize, const RAM: usize>(
    state: BoardBusState,
    value: u32,
)
    requires
        BoardBus::<FLASH, RAM>::valid(state),
    ensures
        ({
            let (s, r) = BoardBus::<FLASH, RAM>::write32_spec(
                state,
                (GPIOC_BASE + GPIO_BCR_OFFSET) as u32,
                value,
            );
            r is Ok && s.gpio_c.out == state.gpio_c.out & !(value & 0xffff)
        }),
{
}

/// A word stored to a serial data register is captured as its low byte (while the capture
/// has room), and remembered as that register's value while there is a slot for it.
pub proof fn law_board_serial_capture<const FLASH: usize, const RAM: usize>(
    state: BoardBusState,
    value: u32,
)
    requires
        BoardBus::<FLASH, RAM>::valid(state),
    ensures
        ({
            let (s, r) = BoardBus::<FLASH, RAM>::write32_spec(state, (USART1_BASE + 0x04) as u32, value);
            r is Ok && s.usart1_tx == push_byte_spec(state.usart1_tx, (value % 0x100) as u8)
                && s.spi1_tx == state.spi1_tx && s.i2c1_tx == state.i2c1_tx && (stored_spec(state.mmio, (USART1_BASE + 0x04) as u32) is Some
                || state.mmio.len() < PERIPHERAL_REGISTER_SLOTS ==> stored_spec(
                s.mmio,
                (USART1_BASE + 0x04) as u32,
            ) == Some(value))
        }),
        ({
            let (s, r) = BoardBus::<FLASH, RAM>::write32_spec(state, (SPI1_BASE + 0x0c) as u32, value);
            r is Ok && s.spi1_tx == push_byte_spec(state.spi1_tx, (value % 0x100) as u8)
                && s.usart1_tx == state.usart1_tx && s.i2c1_tx == state.i2c1_tx
        }),
        ({
            let (s, r) = BoardBus::<FLASH, RAM>::write32_spec(state, (I2C1_BASE + 0x10) as u32, value);
            r is Ok && s.i2c1_tx == push_byte_spec(state.i2c1_tx, (value % 0x100) as u8)
                && s.usart1_tx == state.usart1_tx && s.spi1_tx == state.spi1_tx
        }),
{
    lemma_store_remembers(state.mmio, (USART1_BASE + 0x04) as u32, value);
}

/// Each read of the SysTick counter advances it by 50 000 (modulo 2^32) and returns the new
/// count; the RCC clock-ready bits always read as set, and the system clock as switched to the
/// PLL, so start-up polling loops end.
pub proof fn law_board_clock_registers<const FLASH: usize, const RAM: usize>(state: BoardBusState)
    ensures
        ({
            let count = add32(state.systick_count, 50_000);
            BoardBus::<FLASH, RAM>::read32_mut_spec(state, (SYSTICK_BASE + 0x08) as u32) == (
                BoardBusState { systick_count: count, ..state },
                Ok::<u32, BusFault>(count),
            )
        }),
        BoardBus::<FLASH, RAM>::read32_mut_spec(state, RCC_BASE).0 == state,
        BoardBus::<FLASH, RAM>::read32_mut_spec(state, RCC_BASE).1 matches Ok(x) && x & 0x0300_0003
            == 0x0300_0003,
        BoardBus::<FLASH, RAM>::read32_mut_spec(state, (RCC_BASE + 0x04) as u32).0 == state,
        BoardBus::<FLASH, RAM>::read32_mut_spec(state, (RCC_BASE + 0x04) as u32).1 matches Ok(y)
            && y & 0x0c == 0x08,
{
    let a = state.rcc_ctlr;
    let c = state.rcc_cfgr0;
    assert((a | 0x0300_0003u32) & 0x0300_0003u32 == 0x0300_0003u32) by (bit_vector);
    assert(((c & !0x0cu32) | 0x08u32) & 0x0cu32 == 0x08u32) by (bit_vector);
}

/// A peripheral register that no modelled device answers for.
pub open spec fn remembered_register(address: u32) -> bool {
    &&& is_peripheral_mmio_spec(address)
    &&& !in_gpio_window(GPIOA_BASE, address)
    &&& !in_gpio_window(GPIOC_BASE, address)
    &&& !in_gpio_window(GPIOD_BASE, address)
    &&& address != SYSTICK_BASE && address != SYSTICK_BASE + 0x08
    &&& address != RCC_BASE && address != RCC_BASE + 0x04 && address != RCC_BASE + 0x08
    &&& address != RCC_BASE + 0x14 && address != RCC_BASE + 0x18 && address != RCC_BASE + 0x1c
    &&& address != FLASH_BASE
    &&& address != USART1_BASE && address != USART1_BASE + 0x04
    &&& address != SPI1_BASE + 0x08 && address != SPI1_BASE + 0x0c
    &&& address != I2C1_BASE + 0x10 && address != I2C1_BASE + 0x14 && address != I2C1_BASE + 0x18
    &&& address != ADC1_BASE && address != ADC1_BASE + 0x4c
    &&& address != TIM1_BASE + 0x10 && address != TIM2_BASE + 0x10
    &&& !is_dma_channel_control_spec(address)
}

/// A word written to a peripheral register that no modelled device answers for is remembered:
/// it reads back while the register already has a slot or a slot is free (otherwise the write is
/// dropped and the register reads as before), every other register reads as before, and
/// nothing else of the bus changes.
pub proof fn law_board_register_reads_back<const FLASH: usize, const RAM: usize>(
    state: BoardBusState,
    address: u32,
    value: u32,
    other: u32,
)
    requires
        BoardBus::<FLASH, RAM>::valid(state),
        address % 4 == 0,
        remembered_register(address),
    ensures
        ({
            let (s1, r) = BoardBus::<FLASH, RAM>::write32_spec(state, address, value);
            &&& r is Ok
            &&& BoardBus::<FLASH, RAM>::valid(s1)
            &&& s1 == BoardBusState { mmio: s1.mmio, ..state }
            &&& stored_spec(state.mmio, address) is Some || state.mmio.len()
                < PERIPHERAL_REGISTER_SLOTS ==> BoardBus::<FLASH, RAM>::read32_mut_spec(
                s1,
                address,
            ) == (s1, Ok::<u32, BusFault>(value))
            &&& !(stored_spec(state.mmio, address) is Some || state.mmio.len()
                < PERIPHERAL_REGISTER_SLOTS) ==> s1 == state
            &&& other != address ==> stored_spec(s1.mmio, other) == stored_spec(state.mmio, other)
        }),
{
    lemma_store_remembers(state.mmio, address, value);
    if !(stored_spec(state.mmio, address) is Some || state.mmio.len() < PERIPHERAL_REGISTER_SLOTS) {
        assert(store_spec(state.mmio, address, value) == state.mmio);
    }
}

/// Remembering a value for an address keeps the addresses distinct; afterwards the address
/// reads back the value unless there was no room for it, and every other address is unchanged.
pub proof fn lemma_store_remembers(mmio: Seq<(u32, u32)>, address: u32, value: u32)
    requires
        distinct_addresses(mmio),
        mmio.len() <= PERIPHERAL_REGISTER_SLOTS,
    ensures
        distinct_addresses(store_spec(mmio, address, value)),
        store_spec(mmio, address, value).len() <= PERIPHERAL_REGISTER_SLOTS,
        stored_spec(mmio, address) is Some || mmio.len() < PERIPHERAL_REGISTER_SLOTS
            ==> stored_spec(store_spec(mmio, address, value), address) == Some(value),
        forall|other: u32|
            other != address ==> stored_spec(store_spec(mmio, address, value), other)
                == stored_spec(mmio, other),
{
    let m2 = store_spec(mmio, address, value);
    if exists|i: int| 0 <= i < mmio.len() && mmio[i].0 == address {
        let k = choose|i: int| 0 <= i < mmio.len() && mmio[i].0 == address;
        assert(m2[k].0 == address);
        assert forall|other: u32| other != address implies stored_spec(m2, other) == stored_spec(
            mmio,
            other,
        ) by {
            if exists|i: int| 0 <= i < mmio.len() && mmio[i].0 == other {
                let i = choose|i: int| 0 <= i < mmio.len() && mmio[i].0 == other;
                assert(m2[i].0 == other);
            }
            if exists|i: int| 0 <= i < m2.len() && m2[i].0 == other {
                let i = choose|i: int| 0 <= i < m2.len() && m2[i].0 == other;
                assert(mmio[i].0 == other);
            }
        }
    } else if mmio.len() < PERIPHERAL_REGISTER_SLOTS {
        assert(m2[mmio.len() as int].0 == address);
        assert forall|other: u32| other != address implies stored_spec(m2, other) == stored_spec(
            mmio,
            other,
        ) by {
            if exists|i: int| 0 <= i < mmio.len() && mmio[i].0 == other {
                let i = choose|i: int| 0 <= i < mmio.len() && mmio[i].0 == other;
                assert(m2[i].0 == other);
            }
            if exists|i: int| 0 <= i < m2.len() && m2[i].0 == other {
                let i = choose|i: int| 0 <= i < m2.len() && m2[i].0 == other;
                assert(mmio[i].0 == other);
            }
        }
    }
}


/// The bytes `first .. first + len` of RAM (by offset from `RAM_BASE`) are the same in two
/// RAM images.
pub open spec fn same_ram_bytes(a: Seq<u8>, b: Seq<u8>, first: int, len: int) -> bool {
    forall|i: int| 0 <= i < len ==> #[trigger] a[first + i] == b[first + i]
}

proof fn lemma_dma_copy_bytewise(
    flash: Seq<u8>,
    original: Seq<u8>,
    ram: Seq<u8>,
    p: DmaPlan,
    k: int,
    src: int,
    dst: int,
)
    requires
        p.mem2mem,
        p.memory_increment,
        p.width == 1,
        p.peripheral == RAM_BASE + src,
        p.memory == RAM_BASE + dst,
        0 <= k <= p.count,
        0 <= src,
        0 <= dst,
        src + p.count <= original.len(),
        dst + p.count <= original.len(),
        src + p.count <= dst || dst + p.count <= src,
        ram.len() == original.len(),
        RAM_BASE + original.len() <= 0x1_0000_0000,
        same_ram_bytes(ram, original, src, p.count as int),
    ensures
        dma_copy_spec(flash, ram, p, k).len() == ram.len(),
        forall|i: int|
            k <= i < p.count ==> #[trigger] dma_copy_spec(flash, ram, p, k)[dst + i]
                == original[src + i],
        forall|j: int|
            0 <= j < ram.len() && !(dst + k <= j < dst + p.count) ==> #[trigger] dma_copy_spec(
                flash,
                ram,
                p,
                k,
            )[j] == ram[j],
    decreases p.count - k,
{
    if k < p.count {
        let (from, to) = dma_element_spec(p, k);
        assert(from == RAM_BASE + src + k);
        assert(to == RAM_BASE + dst + k);
        assert(ram[src + k] == original[src + k]);
        let next = copy_bytes_spec(flash, ram, from, to, 1, 0);
        assert(copy_bytes_spec(flash, ram.update(dst + k, ram[src + k]), from, to, 1, 1) == ram.update(
            dst + k,
            ram[src + k],
        ));
        assert(next == ram.update(dst + k, ram[src + k]));
        assert(same_ram_bytes(next, original, src, p.count as int));
        lemma_dma_copy_bytewise(flash, original, next, p, k + 1, src, dst);
    }
}

/// A memory-to-memory DMA transfer of single bytes with an incrementing destination, between
/// two RAM ranges that do not overlap, copies the source range onto the destination range and
/// leaves every other RAM byte unchanged.
pub proof fn law_dma_copies_ram_bytes(s: BoardBusState, control_address: u32, src: int, dst: int)
    requires
        dma_plan_spec(s.mmio, control_address).mem2mem,
        dma_plan_spec(s.mmio, control_address).memory_increment,
        dma_plan_spec(s.mmio, control_address).width == 1,
        dma_plan_spec(s.mmio, control_address).peripheral == RAM_BASE + src,
        dma_plan_spec(s.mmio, control_address).memory == RAM_BASE + dst,
        0 <= src,
        0 <= dst,
        src + dma_plan_spec(s.mmio, control_address).count <= s.ram.len(),
        dst + dma_plan_spec(s.mmio, control_address).count <= s.ram.len(),
        src + dma_plan_spec(s.mmio, control_address).count <= dst || dst + dma_plan_spec(
            s.mmio,
            control_address,
        ).count <= src,
        RAM_BASE + s.ram.len() <= 0x1_0000_0000,
    ensures
        ({
            let n = dma_plan_spec(s.mmio, control_address).count as int;
            let after = dma_spec(s, control_address).ram;
            &&& after.len() == s.ram.len()
            &&& forall|i: int| 0 <= i < n ==> #[trigger] after[dst + i] == s.ram[src + i]
            &&& forall|j: int|
                0 <= j < s.ram.len() && !(dst <= j < dst + n) ==> #[trigger] after[j] == s.ram[j]
        }),
{
    let p = dma_plan_spec(s.mmio, control_address);
    lemma_dma_copy_bytewise(s.flash, s.ram, s.ram, p, 0, src, dst);
}

} // verus!
