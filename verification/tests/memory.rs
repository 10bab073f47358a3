use otter::log::{EventLog, LogEvent, NullLogger};
use otter::mem::{Memory, Size};

#[test]
fn mem_byte() {
    let mut null = NullLogger;
    let mut mem = Memory::new(0x1000);
    // write then read a byte
    let addr: u32 = 0x0123;
    let data_wr: u32 = 0x000000FF;
    let data_exp: u32 = 0x000000FF;
    mem.wr(addr, data_wr, Size::Byte, &mut null);
    let data_rd: u32 = mem.rd(addr, Size::Byte, &mut null);
    println!(
        "wrote: {:#010X}, read: {:#010X}, expected: {:#010X}",
        data_wr, data_rd, data_exp
    );
    assert_eq!(data_exp, data_rd);
}

#[test]
fn mem_byte_overflow() {
    let mut null = NullLogger;
    let mut mem = Memory::new(0x1000);
    let addr = 0x0000;
    let data_wr: u32 = 0xFFFFFFFF;
    let data_exp: u32 = 0x000000FF;
    mem.wr(addr, data_wr, Size::Byte, &mut null);
    let data_rd: u32 = mem.rd(addr, Size::Byte, &mut null);
    println!(
        "wrote: {:#010X}, read: {:#010X}, expected: {:#010X}",
        data_wr, data_rd, data_exp
    );
    assert_eq!(data_exp, data_rd);
}

#[test]
fn mem_halfword() {
    let mut null = NullLogger;
    let mut mem = Memory::new(0x1000);
    let addr: u32 = 0x0321;
    let data_wr: u32 = 0x0000FFFF;
    let data_exp: u32 = 0x0000FFFF;
    mem.wr(addr, data_wr, Size::HalfWord, &mut null);
    let data_rd: u32 = mem.rd(addr, Size::HalfWord, &mut null);
    println!(
        "wrote: {:#010X}, read: {:#010X}, expected: {:#010X}",
        data_wr, data_rd, data_exp
    );
    assert_eq!(data_exp, data_rd);
}

#[test]
fn mem_halfword_overflow() {
    let mut null = NullLogger;
    let mut mem = Memory::new(0x1000);
    let addr: u32 = 0x0000;
    let data_wr: u32 = 0xFFFFFFFF;
    let data_exp: u32 = 0x0000FFFF;
    mem.wr(addr, data_wr, Size::HalfWord, &mut null);
    let data_rd: u32 = mem.rd(addr, Size::HalfWord, &mut null);
    println!(
        "wrote: {:#010X}, read: {:#010X}, expected: {:#010X}",
        data_wr, data_rd, data_exp
    );
    assert_eq!(data_exp, data_rd);
}

#[test]
fn mem_word() {
    let mut null = NullLogger;
    let mut mem = Memory::new(0x1000);
    let addr: u32 = 0x0000;
    let data_wr: u32 = 0x1234ABCD;
    let data_exp: u32 = 0x1234ABCD;
    mem.wr(addr, data_wr, Size::Word, &mut null);
    let data_rd: u32 = mem.rd(addr, Size::Word, &mut null);
    println!(
        "wrote: {:#010X}, read: {:#010X}, expected: {:#010X}",
        data_wr, data_rd, data_exp
    );
    assert_eq!(data_exp, data_rd);
}

#[test]
fn mem_read_unset() {
    let mut null = NullLogger;
    let mem = Memory::new(0x1000);
    mem.rd(0, Size::Word, &mut null);
}

#[test]
fn mem_wr_invalid() {
    let mut null = NullLogger;
    let mut mem = Memory::new(0x1000);
    mem.add_io(0x1000, 4);
    mem.wr(0x1000, 1, Size::Word, &mut null);
    assert_eq!(0, mem.rd(0x1000 + 40, Size::Word, &mut null));
}

#[test]
fn mem_rd_invalid() {
    let mut null = NullLogger;
    let mut mem = Memory::new(0x1000);
    mem.add_io(0x1000, 4);
    mem.rd(0x1000 + 40, Size::Word, &mut null);
    assert_eq!(0, mem.rd(0x1000, Size::Word, &mut null));
}

#[test]
fn mem_prog() {
    let mut null = NullLogger;
    let mut mem = Memory::new(0x1000);
    let mut binary: Vec<Vec<u8>> = vec![Vec::new(); 4];
    for i in 0..16 {
        binary[i / 4].push(i as u8);
    }
    mem.prog(binary);
    for i in 0..16 {
        assert_eq!(i as u32, mem.rd(i, Size::Byte, &mut null));
    }
}

#[test]
fn mem_simple_mmio() {
    let mut null = NullLogger;
    let mut mem = Memory::new(0x1000);
    mem.add_io(0x1000, 4);
    mem.wr(0x1000, 12, Size::Byte, &mut null);
    assert_eq!(12, mem.rd(0x1000, Size::Byte, &mut null));
}

#[test]
fn mem_prog_empty() {
    let mut null = NullLogger;
    let mut mem = Memory::new(0x1000);
    mem.prog(Vec::new());
    assert_eq!(0, mem.rd(0, Size::Word, &mut null));
}

#[test]
fn mmio_isolation() {
    // Two adjacent devices just past RAM: writing one never touches RAM
    // or the other, and writing RAM never touches either.
    let mut null = NullLogger;
    let mut mem = Memory::new(0x1000);
    mem.add_io(0x1000, 2);
    mem.add_io(0x1002, 2);
    mem.wr(0x0FFC, 0x11223344, Size::Word, &mut null);
    mem.wr(0x1000, 0xAAAA, Size::HalfWord, &mut null);
    mem.wr(0x1002, 0xBBBB, Size::HalfWord, &mut null);
    assert_eq!(0x11223344, mem.rd(0x0FFC, Size::Word, &mut null));
    assert_eq!(0xAAAA, mem.rd(0x1000, Size::HalfWord, &mut null));
    assert_eq!(0xBBBB, mem.rd(0x1002, Size::HalfWord, &mut null));
    // overwrite the first device: RAM and the second device keep their values
    mem.wr(0x1000, 0x5555, Size::HalfWord, &mut null);
    assert_eq!(0x11223344, mem.rd(0x0FFC, Size::Word, &mut null));
    assert_eq!(0xBBBB, mem.rd(0x1002, Size::HalfWord, &mut null));
}

#[test]
fn read_unset_reports() {
    let mut log = EventLog::new();
    let mem = Memory::new(0x1000);
    let v = mem.rd(8, Size::Byte, &mut log);
    assert_eq!(0, v);
    assert_eq!(vec![LogEvent::ReadUnset { addr: 8 }], log.events);
}

#[test]
fn invalid_address_reports() {
    let mut log = EventLog::new();
    let mut mem = Memory::new(0x1000);
    mem.add_io(0x2000, 4);
    // in the gap between RAM and the first device
    let v = mem.rd(0x1800, Size::Word, &mut log);
    assert_eq!(0, v);
    assert_eq!(vec![LogEvent::InvalidAddress { addr: 0x1800 }], log.events);
    // past every device
    let mut log2 = EventLog::new();
    mem.wr(0x2004, 7, Size::Byte, &mut log2);
    assert_eq!(vec![LogEvent::InvalidAddress { addr: 0x2004 }], log2.events);
}
