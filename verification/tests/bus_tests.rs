use claudioos::board_bus::{DMA1_BASE, I2C1_BASE, RAM_BASE, SPI1_BASE, USART1_BASE};
use claudioos::bus::{GPIOA_BASE, GPIOC_BASE, GPIOD_BASE, GPIO_BCR_OFFSET, GPIO_BSHR_OFFSET};
use claudioos::{BoardBus, Bus, BusFault, RamBus, GPIO_OUT};

#[test]
fn stores_gpio_output() {
    let mut bus = RamBus::<4>::new();
    bus.write32(GPIO_OUT, 1).unwrap();
    assert_eq!(bus.gpio_out(), 1);
    assert_eq!(bus.read32(GPIO_OUT).unwrap(), 1);
}

#[test]
fn rejects_unaligned_reads() {
    let bus = RamBus::<4>::new();
    assert_eq!(bus.read32(2), Err(BusFault::Unaligned { address: 2 }));
}

#[test]
fn board_bus_tracks_all_one_dollar_board_gpio_ports() {
    let mut bus = BoardBus::<64, 64>::new();

    bus.write32(GPIOA_BASE + GPIO_BSHR_OFFSET, 1 << 1).unwrap();
    bus.write32(GPIOC_BASE + GPIO_BSHR_OFFSET, 1 << 7).unwrap();
    bus.write32(
        GPIOD_BASE + GPIO_BSHR_OFFSET,
        (1 << 0) | (1 << 1) | (1 << 2) | (1 << 6) | (1 << 7),
    )
    .unwrap();
    bus.write32(GPIOC_BASE + GPIO_BCR_OFFSET, 1 << 7).unwrap();

    assert_eq!(bus.gpio_a().out, 1 << 1);
    assert_eq!(bus.gpio_c().out, 0);
    assert_eq!(
        bus.gpio_d().out,
        (1 << 0) | (1 << 1) | (1 << 2) | (1 << 6) | (1 << 7)
    );
}

#[test]
fn board_bus_captures_serial_peripheral_output() {
    let mut bus = BoardBus::<64, 64>::new();

    bus.write32(USART1_BASE + 0x04, b'A' as u32).unwrap();
    bus.write32(SPI1_BASE + 0x0c, 0x5a).unwrap();
    bus.write32(I2C1_BASE + 0x10, 0xc3).unwrap();

    assert_eq!(bus.usart1_tx(), b"A");
    assert_eq!(bus.spi1_tx(), &[0x5a]);
    assert_eq!(bus.i2c1_tx(), &[0xc3]);
}

#[test]
fn board_bus_performs_basic_dma_mem2mem_copy() {
    let mut bus = BoardBus::<64, 64>::new();
    let src = RAM_BASE;
    let dst = RAM_BASE + 16;

    for (offset, value) in [9, 8, 7, 6].iter().copied().enumerate() {
        bus.write8(src + offset as u32, value).unwrap();
    }

    bus.write32(DMA1_BASE + 0x0c, 4).unwrap();
    bus.write32(DMA1_BASE + 0x10, src).unwrap();
    bus.write32(DMA1_BASE + 0x14, dst).unwrap();
    bus.write32(DMA1_BASE + 0x08, (1 << 14) | (1 << 7) | 1)
        .unwrap();

    assert_eq!(bus.dma_transfer_count(), 1);
    assert_eq!(bus.read8(dst).unwrap(), 9);
    assert_eq!(bus.read8(dst + 1).unwrap(), 8);
    assert_eq!(bus.read8(dst + 2).unwrap(), 7);
    assert_eq!(bus.read8(dst + 3).unwrap(), 6);
}

#[test]
fn ram_bus_word_and_byte_round_trip() {
    let mut bus = RamBus::<4>::new();
    bus.write32(4, 0x1122_3344).unwrap();
    assert_eq!(bus.read32(4).unwrap(), 0x1122_3344);
    bus.write8(5, 0xaa).unwrap();
    assert_eq!(bus.read8(5).unwrap(), 0xaa);
    assert_eq!(bus.read8(4).unwrap(), 0x44);
    assert_eq!(bus.read8(6).unwrap(), 0x22);
    assert_eq!(bus.read32(4).unwrap(), 0x1122_aa44);
    assert_eq!(bus.read16(4).unwrap(), 0xaa44);
    bus.write16(6, 0xbeef).unwrap();
    assert_eq!(bus.read32(4).unwrap(), 0xbeef_aa44);
    assert_eq!(bus.read32_mut(4).unwrap(), 0xbeef_aa44);
}

#[test]
fn ram_bus_reports_faults() {
    let mut bus = RamBus::<4>::new();
    assert_eq!(bus.read32(16), Err(BusFault::OutOfRange { address: 16 }));
    assert_eq!(bus.write32(17, 0), Err(BusFault::Unaligned { address: 17 }));
    assert_eq!(bus.read16(3), Err(BusFault::Unaligned { address: 3 }));
    assert_eq!(bus.load_word(4, 1), Err(BusFault::OutOfRange { address: 16 }));
    assert_eq!(bus.load_word(3, 7), Ok(()));
    assert_eq!(bus.read32(12), Ok(7));
}

#[test]
fn board_bus_memory_map() {
    let mut bus = BoardBus::<16, 16>::new();
    bus.load_flash(&[1, 2, 3, 4, 5]).unwrap();
    assert_eq!(bus.read32(0).unwrap(), 0x0403_0201);
    assert_eq!(bus.read8(4).unwrap(), 5);
    // flash is read-only
    assert_eq!(bus.write8(1, 9), Err(BusFault::OutOfRange { address: 1 }));
    assert_eq!(bus.read8(1).unwrap(), 2);
    // RAM round trip
    bus.write32(RAM_BASE + 4, 0xdead_beef).unwrap();
    assert_eq!(bus.read32(RAM_BASE + 4).unwrap(), 0xdead_beef);
    assert_eq!(bus.read8(RAM_BASE + 5).unwrap(), 0xbe);
    assert_eq!(bus.read32(RAM_BASE + 16), Err(BusFault::OutOfRange { address: RAM_BASE + 16 }));
    assert_eq!(
        bus.load_flash(&[0u8; 17]),
        Err(BusFault::OutOfRange { address: 17 })
    );
}

#[test]
fn board_bus_peripheral_registers() {
    let mut bus = BoardBus::<16, 16>::new();
    // RCC reports clocks ready
    assert_eq!(bus.read32_mut(0x4002_1000).unwrap(), 0x0300_0003 | 0x0200_0000);
    // SysTick counter advances on each read
    assert_eq!(bus.read32_mut(0xe000_f008).unwrap(), 50_000);
    assert_eq!(bus.read32_mut(0xe000_f008).unwrap(), 100_000);
    // other peripheral registers remember what was written
    bus.write32(0x4001_0400, 0x1234).unwrap();
    assert_eq!(bus.read32_mut(0x4001_0400).unwrap(), 0x1234);
    // BSHR: reset wins over set
    bus.write32(GPIOD_BASE + GPIO_BSHR_OFFSET, 0x0001_0003).unwrap();
    assert_eq!(bus.gpio_d().out, 0x2);
    assert_eq!(bus.gpio_d().bshr_writes, 1);
    // nothing answers far away
    assert_eq!(bus.read32_mut(0x9000_0000), Err(BusFault::OutOfRange { address: 0x9000_0000 }));
}

#[test]
fn board_bus_word_stores() {
    let mut bus = BoardBus::<16, 16>::new();
    assert_eq!(bus.write32(4, 7), Err(BusFault::OutOfRange { address: 4 }));
    assert_eq!(bus.read32(4).unwrap(), 0);
    assert_eq!(bus.write32(RAM_BASE + 2, 7), Err(BusFault::Unaligned { address: RAM_BASE + 2 }));
    bus.write32(RAM_BASE + 8, 0x0102_0304).unwrap();
    assert_eq!(bus.read32(RAM_BASE + 8).unwrap(), 0x0102_0304);
    assert_eq!(bus.read32(RAM_BASE + 4).unwrap(), 0);
    assert_eq!(bus.read32(RAM_BASE + 12).unwrap(), 0);
    // a serial write fills only its own capture
    bus.write32(USART1_BASE + 4, 0x141).unwrap();
    assert_eq!(bus.usart1_tx(), &[0x41]);
    assert!(bus.spi1_tx().is_empty());
    assert!(bus.i2c1_tx().is_empty());
}
