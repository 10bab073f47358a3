//! The memory subsystem: a flat byte-addressable RAM whose bytes remember
//! whether they were ever written, plus a table of memory-mapped I/O
//! devices, unified behind one read/write interface keyed by byte address
//! and access width.
//!
//! Every access is little-endian and assembled byte by byte.  Reads of
//! never-written RAM yield zero and report [`crate::log::LogEvent::ReadUnset`];
//! accesses outside both RAM and every device yield zero (reads) or are
//! dropped whole (writes) and report
//! [`crate::log::LogEvent::InvalidAddress`].  No access panics.

use vstd::prelude::*;

use crate::log::{LogEvent, Logger, NullLogger};

verus! {

/// The width of one memory access.
#[derive(Clone, Copy, Debug)]
pub enum Size {
    Byte,
    HalfWord,
    Word,
}

/// Number of bytes moved by an access of width `size`.
pub open spec fn width(size: Size) -> int {
    match size {
        Size::Byte => 1,
        Size::HalfWord => 2,
        Size::Word => 4,
    }
}

/// The value bits an access of width `size` can carry.
pub open spec fn width_mask(size: Size) -> u32 {
    match size {
        Size::Byte => 0xff,
        Size::HalfWord => 0xffff,
        Size::Word => 0xffffffff,
    }
}

/// A never-written byte reads as zero.
pub open spec fn byte_or_zero(b: Option<u8>) -> u8 {
    match b {
        Some(v) => v,
        None => 0,
    }
}

/// Byte `k` of `data` in little-endian order.
pub open spec fn le_byte(data: u32, k: int) -> u8 {
    if k == 0 {
        (data % 0x100) as u8
    } else if k == 1 {
        ((data / 0x100) % 0x100) as u8
    } else if k == 2 {
        ((data / 0x10000) % 0x100) as u8
    } else {
        ((data / 0x1000000) % 0x100) as u8
    }
}

// ------------------------------------------------------------------
// Main RAM.
// ------------------------------------------------------------------

/// What a RAM read returns: the little-endian assembly of `width(size)`
/// bytes starting at `addr`, never-written bytes contributing zero; an
/// access not entirely inside RAM returns zero.
pub open spec fn ram_read(ram: Seq<Option<u8>>, addr: u32, size: Size) -> u32 {
    if addr + width(size) <= ram.len() {
        let b0 = byte_or_zero(ram[addr as int]) as int;
        match size {
            Size::Byte => b0 as u32,
            Size::HalfWord => {
                let b1 = byte_or_zero(ram[addr + 1]) as int;
                (b0 + 0x100 * b1) as u32
            },
            Size::Word => {
                let b1 = byte_or_zero(ram[addr + 1]) as int;
                let b2 = byte_or_zero(ram[addr + 2]) as int;
                let b3 = byte_or_zero(ram[addr + 3]) as int;
                (b0 + 0x100 * b1 + 0x10000 * b2 + 0x1000000 * b3) as u32
            },
        }
    } else {
        0
    }
}

/// The RAM after a write: the low `width(size)` bytes of `data` land at
/// `addr` in little-endian order and are marked set; an access not
/// entirely inside RAM changes nothing (no partial writes).
pub open spec fn ram_write(ram: Seq<Option<u8>>, addr: u32, data: u32, size: Size) -> Seq<
    Option<u8>,
> {
    if addr + width(size) <= ram.len() {
        match size {
            Size::Byte => ram.update(addr as int, Some(le_byte(data, 0))),
            Size::HalfWord => ram.update(addr as int, Some(le_byte(data, 0))).update(
                addr + 1,
                Some(le_byte(data, 1)),
            ),
            Size::Word => ram.update(addr as int, Some(le_byte(data, 0))).update(
                addr + 1,
                Some(le_byte(data, 1)),
            ).update(addr + 2, Some(le_byte(data, 2))).update(addr + 3, Some(le_byte(data, 3))),
        }
    } else {
        ram
    }
}

/// Main memory.  Each byte is either set (written at least once) or unset.
pub struct RAM {
    mem: Vec<Option<u8>>,
    size: u32,
}

impl View for RAM {
    type V = Seq<Option<u8>>;

    closed spec fn view(&self) -> Seq<Option<u8>> {
        self.mem@
    }
}

impl RAM {
    /// Well-formed: the byte store matches the declared size.
    pub closed spec fn wf(&self) -> bool {
        self@.len() == self.size
    }

    /// A fresh RAM of `size` bytes, all unset.
    pub fn new(size: u32) -> (r: RAM)
        ensures
            r.wf(),
            r@.len() == size,
            forall|i: int| 0 <= i < size ==> r@[i] is None,
    {
        let mut mem: Vec<Option<u8>> = Vec::new();
        let mut i: u32 = 0;
        while i < size
            invariant
                i <= size,
                mem@.len() == i,
                forall|j: int| 0 <= j < i ==> mem@[j] is None,
            decreases size - i,
        {
            mem.push(None);
            i = i + 1;
        }
        RAM { mem, size }
    }

    /// Reads one byte, reporting a read of unset memory.
    fn try_read_byte<L: Logger>(&self, addr: u32, offset: u8, logger: &mut L) -> (r: u8)
        requires
            self.wf(),
            addr + offset < self@.len(),
        ensures
            r == byte_or_zero(self@[addr + offset]),
    {
        let d_rd: Option<u8> = self.mem[addr as usize + offset as usize];
        match d_rd {
            None => {
                logger.log(LogEvent::ReadUnset { addr: addr + offset as u32 });
                0
            },
            Some(d) => d,
        }
    }

    /// Reads the value at `addr` as an unsigned 32-bit integer, assembling
    /// `size` bytes little-endian.  Unset bytes read as zero with a
    /// diagnostic; an access that does not fit inside RAM reads as zero
    /// with an invalid-address diagnostic.
    pub fn rd<L: Logger>(&self, addr: u32, size: Size, logger: &mut L) -> (r: u32)
        requires
            self.wf(),
        ensures
            r == ram_read(self@, addr, size),
    {
        let w: u32 = match size {
            Size::Byte => 1,
            Size::HalfWord => 2,
            Size::Word => 4,
        };
        if (addr as u64) + (w as u64) > (self.size as u64) {
            logger.log(LogEvent::InvalidAddress { addr });
            return 0;
        }
        let mut data: u32 = self.try_read_byte(addr, 0, logger) as u32;
        if w >= 2 {
            data = data + (self.try_read_byte(addr, 1, logger) as u32) * 0x100;
        }
        if w >= 4 {
            data = data + (self.try_read_byte(addr, 2, logger) as u32) * 0x10000;
            data = data + (self.try_read_byte(addr, 3, logger) as u32) * 0x1000000;
        }
        data
    }

    /// Writes the low `size` bytes of `data` at `addr` little-endian; an
    /// access that does not fit inside RAM is dropped whole with an
    /// invalid-address diagnostic.
    fn wr<L: Logger>(&mut self, addr: u32, data: u32, size: Size, logger: &mut L)
        requires
            old(self).wf(),
        ensures
            final(self).wf(),
            final(self)@ == ram_write(old(self)@, addr, data, size),
    {
        let w: u32 = match size {
            Size::Byte => 1,
            Size::HalfWord => 2,
            Size::Word => 4,
        };
        if (addr as u64) + (w as u64) > (self.size as u64) {
            logger.log(LogEvent::InvalidAddress { addr });
            return ;
        }
        self.mem[addr as usize] = Some((data % 0x100) as u8);
        if w >= 2 {
            self.mem[addr as usize + 1] = Some(((data / 0x100) % 0x100) as u8);
        }
        if w >= 4 {
            self.mem[addr as usize + 2] = Some(((data / 0x10000) % 0x100) as u8);
            self.mem[addr as usize + 3] = Some(((data / 0x1000000) % 0x100) as u8);
        }
    }
}


// ------------------------------------------------------------------
// Memory-mapped I/O.
// ------------------------------------------------------------------

/// One registered device as the specifications see it: its base address
/// and the bytes it currently holds.
#[verifier::ext_equal]
pub struct DevView {
    pub base: u32,
    pub bytes: Seq<u8>,
}

/// True when `addr` falls inside device `d`'s address range.
pub open spec fn dev_match(d: DevView, addr: u32) -> bool {
    d.base <= addr && addr < d.base + d.bytes.len()
}

/// The index of the first device (in ascending base order) whose range
/// holds `addr`, or -1 when none does.
pub open spec fn find_dev(devs: Seq<DevView>, addr: u32) -> int
    decreases devs.len(),
{
    if devs.len() == 0 {
        -1
    } else if dev_match(devs[0], addr) {
        0
    } else {
        let r = find_dev(devs.subrange(1, devs.len() as int), addr);
        if r == -1 {
            -1
        } else {
            r + 1
        }
    }
}

/// When no device's range holds `addr`, the lookup misses.
pub proof fn lemma_find_dev_none(devs: Seq<DevView>, addr: u32)
    requires
        forall|j: int| 0 <= j < devs.len() ==> !dev_match(devs[j], addr),
    ensures
        find_dev(devs, addr) == -1,
    decreases devs.len(),
{
    if devs.len() != 0 {
        lemma_find_dev_none(devs.subrange(1, devs.len() as int), addr);
    }
}

/// When device `i` matches and no earlier one does, the lookup returns `i`.
pub proof fn lemma_find_dev_hit(devs: Seq<DevView>, addr: u32, i: int)
    requires
        0 <= i < devs.len(),
        dev_match(devs[i], addr),
        forall|j: int| 0 <= j < i ==> !dev_match(devs[j], addr),
    ensures
        find_dev(devs, addr) == i,
    decreases i,
{
    if i > 0 {
        lemma_find_dev_hit(devs.subrange(1, devs.len() as int), addr, i - 1);
    }
}

/// The lookup result is either a miss or a matching in-range index.
pub proof fn lemma_find_dev_range(devs: Seq<DevView>, addr: u32)
    ensures
        -1 <= find_dev(devs, addr) < devs.len(),
        find_dev(devs, addr) != -1 ==> dev_match(devs[find_dev(devs, addr)], addr),
        find_dev(devs, addr) != -1 ==> devs[find_dev(devs, addr)].base <= addr,
    decreases devs.len(),
{
    if devs.len() != 0 && !dev_match(devs[0], addr) {
        lemma_find_dev_range(devs.subrange(1, devs.len() as int), addr);
    }
}

/// Byte `off` of a device; offsets past the device's size read as zero.
pub open spec fn dev_byte(d: DevView, off: int) -> u8 {
    if 0 <= off < d.bytes.len() {
        d.bytes[off]
    } else {
        0
    }
}

/// What an MMIO read returns: zero when no device holds `addr`, otherwise
/// the little-endian assembly of the matched device's bytes starting at
/// the offset of `addr` in its range; bytes past the device's end read as
/// zero.
pub open spec fn mmio_read(devs: Seq<DevView>, addr: u32, size: Size) -> u32 {
    let i = find_dev(devs, addr);
    if i == -1 {
        0
    } else {
        let d = devs[i];
        let off = addr - d.base;
        let b0 = dev_byte(d, off) as int;
        match size {
            Size::Byte => b0 as u32,
            Size::HalfWord => {
                let b1 = dev_byte(d, off + 1) as int;
                (b0 + 0x100 * b1) as u32
            },
            Size::Word => {
                let b1 = dev_byte(d, off + 1) as int;
                let b2 = dev_byte(d, off + 2) as int;
                let b3 = dev_byte(d, off + 3) as int;
                (b0 + 0x100 * b1 + 0x10000 * b2 + 0x1000000 * b3) as u32
            },
        }
    }
}

/// A device's bytes after one byte store; stores past its end are dropped.
pub open spec fn dev_set_byte(bytes: Seq<u8>, off: int, v: u8) -> Seq<u8> {
    if 0 <= off < bytes.len() {
        bytes.update(off, v)
    } else {
        bytes
    }
}

/// A device's bytes after a `size`-wide little-endian store at `off`.
pub open spec fn dev_write_bytes(bytes: Seq<u8>, off: int, data: u32, size: Size) -> Seq<u8> {
    match size {
        Size::Byte => dev_set_byte(bytes, off, le_byte(data, 0)),
        Size::HalfWord => dev_set_byte(
            dev_set_byte(bytes, off, le_byte(data, 0)),
            off + 1,
            le_byte(data, 1),
        ),
        Size::Word => dev_set_byte(
            dev_set_byte(
                dev_set_byte(
                    dev_set_byte(bytes, off, le_byte(data, 0)),
                    off + 1,
                    le_byte(data, 1),
                ),
                off + 2,
                le_byte(data, 2),
            ),
            off + 3,
            le_byte(data, 3),
        ),
    }
}

/// The device table after an MMIO write: unchanged when no device holds
/// `addr`, otherwise only the matched device's bytes change, little-endian,
/// stores past the device's end dropped.
pub open spec fn mmio_write(devs: Seq<DevView>, addr: u32, data: u32, size: Size) -> Seq<
    DevView,
> {
    let i = find_dev(devs, addr);
    if i == -1 {
        devs
    } else {
        let d = devs[i];
        devs.update(
            i,
            DevView { base: d.base, bytes: dev_write_bytes(d.bytes, addr - d.base, data, size) },
        )
    }
}

/// A block of `size` zeroed bytes: a device's initial contents.
pub open spec fn zero_bytes(size: u32) -> Seq<u8> {
    Seq::new(size as nat, |i: int| 0u8)
}

/// Device base addresses in strictly ascending order (so each base is
/// registered at most once).
pub open spec fn bases_sorted(devs: Seq<DevView>) -> bool {
    forall|i: int, j: int| 0 <= i < j < devs.len() ==> devs[i].base < devs[j].base
}

/// One memory-mapped I/O device: a fixed-size block of bytes.
struct IODevice {
    size: u32,
    contents: Vec<u8>,
}

impl IODevice {
    spec fn wf(&self) -> bool {
        self.contents@.len() == self.size
    }

    /// A fresh device of `size` bytes, all zero.
    fn new(size: u32) -> (r: IODevice)
        ensures
            r.wf(),
            r.contents@.len() == size,
            forall|i: int| 0 <= i < size ==> r.contents@[i] == 0,
    {
        let mut contents: Vec<u8> = Vec::new();
        let mut i: u32 = 0;
        while i < size
            invariant
                i <= size,
                contents@.len() == i,
                forall|j: int| 0 <= j < i ==> contents@[j] == 0,
            decreases size - i,
        {
            contents.push(0);
            i = i + 1;
        }
        IODevice { size, contents }
    }
}

/// The table of all registered MMIO devices, kept in ascending base-address
/// order to support range lookup.
pub struct MMIO {
    addrs: Vec<u32>,
    devices: Vec<IODevice>,
}

impl View for MMIO {
    type V = Seq<DevView>;

    closed spec fn view(&self) -> Seq<DevView> {
        Seq::new(
            self.addrs@.len() as nat,
            |i: int| DevView { base: self.addrs@[i], bytes: self.devices@[i].contents@ },
        )
    }
}

impl MMIO {
    /// Well-formed: one device per registered base, sizes consistent,
    /// bases strictly ascending.
    pub closed spec fn wf(&self) -> bool {
        &&& self.addrs@.len() == self.devices@.len()
        &&& forall|i: int| 0 <= i < self.devices@.len() ==> (#[trigger] self.devices@[i]).wf()
        &&& bases_sorted(self@)
    }

    /// An empty device table.
    pub fn new() -> (r: MMIO)
        ensures
            r.wf(),
            r@.len() == 0,
    {
        MMIO { addrs: Vec::new(), devices: Vec::new() }
    }

    /// Finds the device whose range holds `addr`: the index of the first
    /// registered base `k <= addr` with `addr < k + size`.
    fn match_addr_to_key(&self, addr: u32) -> (r: Option<usize>)
        requires
            self.wf(),
        ensures
            match r {
                Some(i) => {
                    &&& i < self@.len()
                    &&& find_dev(self@, addr) == i
                    &&& dev_match(self@[i as int], addr)
                },
                None => find_dev(self@, addr) == -1,
            },
    {
        let mut i: usize = 0;
        while i < self.addrs.len()
            invariant
                self.wf(),
                i <= self@.len(),
                forall|j: int| 0 <= j < i ==> !dev_match(self@[j], addr),
            decreases self@.len() - i,
        {
            let key: u32 = self.addrs[i];
            if addr >= key && addr - key < self.devices[i].size {
                proof {
                    lemma_find_dev_hit(self@, addr, i as int);
                }
                return Some(i);
            }
            i = i + 1;
        }
        proof {
            lemma_find_dev_none(self@, addr);
        }
        None
    }

    /// Reads the device holding `addr`; an address inside no device reads
    /// as zero with an invalid-address diagnostic.
    pub fn rd<L: Logger>(&self, addr: u32, size: Size, logger: &mut L) -> (r: u32)
        requires
            self.wf(),
        ensures
            r == mmio_read(self@, addr, size),
    {
        let i: usize = match self.match_addr_to_key(addr) {
            None => {
                logger.log(LogEvent::InvalidAddress { addr });
                return 0;
            },
            Some(i) => i,
        };
        let dev: &IODevice = &self.devices[i];
        let offset: u32 = addr - self.addrs[i];
        let w: u32 = match size {
            Size::Byte => 1,
            Size::HalfWord => 2,
            Size::Word => 4,
        };
        let mut data: u32 = dev.contents[offset as usize] as u32;
        if w >= 2 {
            if (offset as u64) + 1 < (dev.size as u64) {
                data = data + (dev.contents[offset as usize + 1] as u32) * 0x100;
            }
        }
        if w >= 4 {
            if (offset as u64) + 2 < (dev.size as u64) {
                data = data + (dev.contents[offset as usize + 2] as u32) * 0x10000;
            }
            if (offset as u64) + 3 < (dev.size as u64) {
                data = data + (dev.contents[offset as usize + 3] as u32) * 0x1000000;
            }
        }
        data
    }

    /// Writes to the device holding `addr`; a write inside no device is
    /// dropped with an invalid-address diagnostic, and bytes past the
    /// matched device's end are dropped.
    pub fn wr<L: Logger>(&mut self, addr: u32, data: u32, size: Size, logger: &mut L)
        requires
            old(self).wf(),
        ensures
            final(self).wf(),
            final(self)@ == mmio_write(old(self)@, addr, data, size),
    {
        let i: usize = match self.match_addr_to_key(addr) {
            None => {
                logger.log(LogEvent::InvalidAddress { addr });
                return ;
            },
            Some(i) => i,
        };
        let offset: u32 = addr - self.addrs[i];
        let w: u32 = match size {
            Size::Byte => 1,
            Size::HalfWord => 2,
            Size::Word => 4,
        };
        let dev: &mut IODevice = &mut self.devices[i];
        dev.contents[offset as usize] = (data % 0x100) as u8;
        if w >= 2 {
            if (offset as u64) + 1 < (dev.size as u64) {
                dev.contents[offset as usize + 1] = ((data / 0x100) % 0x100) as u8;
            }
        }
        if w >= 4 {
            if (offset as u64) + 2 < (dev.size as u64) {
                dev.contents[offset as usize + 2] = ((data / 0x10000) % 0x100) as u8;
            }
            if (offset as u64) + 3 < (dev.size as u64) {
                dev.contents[offset as usize + 3] = ((data / 0x1000000) % 0x100) as u8;
            }
        }
        proof {
            assert(self@ =~~= mmio_write(old(self)@, addr, data, size));
        }
    }

    /// Registers a device of `size` zeroed bytes at `addr`, keeping the
    /// table sorted.  Returns the insertion position.
    fn add(&mut self, addr: u32, size: u32) -> (p: usize)
        requires
            old(self).wf(),
            forall|i: int| 0 <= i < old(self)@.len() ==> (#[trigger] old(self)@[i]).base != addr,
        ensures
            final(self).wf(),
            p <= old(self)@.len(),
            forall|j: int| 0 <= j < p ==> (#[trigger] old(self)@[j]).base < addr,
            forall|j: int| p <= j < old(self)@.len() ==> addr < (#[trigger] old(self)@[j]).base,
            final(self)@ == old(self)@.insert(
                p as int,
                DevView { base: addr, bytes: zero_bytes(size) },
            ),
    {
        let mut p: usize = 0;
        while p < self.addrs.len() && self.addrs[p] < addr
            invariant
                self.wf(),
                p <= self@.len(),
                forall|j: int| 0 <= j < p ==> (#[trigger] self@[j]).base < addr,
            decreases self@.len() - p,
        {
            p = p + 1;
        }
        proof {
            assert(forall|j: int|
                p <= j < self@.len() ==> addr <= (#[trigger] self@[j]).base) by {
                assert(forall|j: int|
                    p < j < self@.len() ==> (#[trigger] self@[j]).base > self@[p as int].base);
            }
        }
        let device = IODevice::new(size);
        self.addrs.insert(p, addr);
        self.devices.insert(p, device);
        proof {
            assert(zero_bytes(size) =~= self@[p as int].bytes);
            assert(self@ =~~= old(self)@.insert(
                p as int,
                DevView { base: addr, bytes: zero_bytes(size) },
            ));
        }
        p
    }

    /// The smallest registered base address.
    fn first_base(&self) -> (r: u32)
        requires
            self.wf(),
            self@.len() > 0,
        ensures
            r == self@[0].base,
    {
        self.addrs[0]
    }
}


// ------------------------------------------------------------------
// The unified memory: RAM plus MMIO behind one interface.
// ------------------------------------------------------------------

/// The complete mathematical state of a [`Memory`].
#[verifier::ext_equal]
pub struct MemView {
    pub ram: Seq<Option<u8>>,
    pub devices: Seq<DevView>,
}

/// The smallest registered device base, or `0xFFFFFFFF` while no device
/// is registered (so no address routes to MMIO).
pub open spec fn mmio_begin_of(devs: Seq<DevView>) -> u32 {
    if devs.len() == 0 {
        0xffffffffu32
    } else {
        devs[0].base
    }
}

/// What a memory read returns: addresses inside RAM route to RAM,
/// addresses at or above the smallest device base route to the device
/// table, and addresses in the gap between read as zero.
pub open spec fn mem_read(m: MemView, addr: u32, size: Size) -> u32 {
    if addr < m.ram.len() {
        ram_read(m.ram, addr, size)
    } else if addr >= mmio_begin_of(m.devices) {
        mmio_read(m.devices, addr, size)
    } else {
        0
    }
}

/// The memory after a write, routed like [`mem_read`].  A write routed to
/// RAM never touches any device and a write routed to a device never
/// touches RAM; a write into the gap changes nothing.
pub open spec fn mem_write(m: MemView, addr: u32, data: u32, size: Size) -> MemView {
    if addr < m.ram.len() {
        MemView { ram: ram_write(m.ram, addr, data, size), devices: m.devices }
    } else if addr >= mmio_begin_of(m.devices) {
        MemView { ram: m.ram, devices: mmio_write(m.devices, addr, data, size) }
    } else {
        m
    }
}

/// A complete memory: main RAM, the MMIO table, and the cached smallest
/// device base used for routing.
pub struct Memory {
    main: RAM,
    mmio: MMIO,
    mmio_begin: u32,
}

impl View for Memory {
    type V = MemView;

    closed spec fn view(&self) -> MemView {
        MemView { ram: self.main@, devices: self.mmio@ }
    }
}

impl Memory {
    /// Well-formed: both regions are, and the cached routing bound is the
    /// smallest registered base.
    pub closed spec fn wf(&self) -> bool {
        &&& self.main.wf()
        &&& self.mmio.wf()
        &&& self.mmio_begin == mmio_begin_of(self.mmio@)
    }

    /// A fresh memory of `main_size` unset RAM bytes and no devices.
    pub fn new(main_size: u32) -> (r: Memory)
        ensures
            r.wf(),
            r@.ram.len() == main_size,
            forall|i: int| 0 <= i < main_size ==> r@.ram[i] is None,
            r@.devices.len() == 0,
    {
        Memory { main: RAM::new(main_size), mmio: MMIO::new(), mmio_begin: 0xffffffff }
    }

    /// Reads `size` bytes at `addr`, routing between RAM and MMIO.
    pub fn rd<L: Logger>(&self, addr: u32, size: Size, logger: &mut L) -> (r: u32)
        requires
            self.wf(),
        ensures
            r == mem_read(self@, addr, size),
    {
        if addr < self.main.size {
            self.main.rd(addr, size, logger)
        } else if addr >= self.mmio_begin {
            self.mmio.rd(addr, size, logger)
        } else {
            logger.log(LogEvent::InvalidAddress { addr });
            0
        }
    }

    /// Writes `size` bytes at `addr`, routing between RAM and MMIO.  A
    /// write routed to one region never mutates the other.
    pub fn wr<L: Logger>(&mut self, addr: u32, data: u32, size: Size, logger: &mut L)
        requires
            old(self).wf(),
        ensures
            final(self).wf(),
            final(self)@ == mem_write(old(self)@, addr, data, size),
    {
        if addr < self.main.size {
            self.main.wr(addr, data, size, logger);
        } else if addr >= self.mmio_begin {
            self.mmio.wr(addr, data, size, logger);
        } else {
            logger.log(LogEvent::InvalidAddress { addr });
        }
        proof {
            lemma_find_dev_range(old(self)@.devices, addr);
            assert(self@ =~~= mem_write(old(self)@, addr, data, size));
        }
    }

    /// Registers a device of `size` zeroed bytes at base `addr`.
    /// Registering an already-occupied base is a setup error and is ruled
    /// out by the caller.
    pub fn add_io(&mut self, addr: u32, size: u32)
        requires
            old(self).wf(),
            forall|i: int|
                0 <= i < old(self)@.devices.len() ==> (#[trigger] old(
                    self,
                )@.devices[i]).base != addr,
        ensures
            final(self).wf(),
            final(self)@.ram == old(self)@.ram,
            exists|p: int|
                {
                    &&& 0 <= p <= old(self)@.devices.len()
                    &&& (forall|j: int|
                        0 <= j < p ==> (#[trigger] old(self)@.devices[j]).base < addr)
                    &&& (forall|j: int|
                        p <= j < old(self)@.devices.len() ==> addr < (#[trigger] old(
                            self,
                        )@.devices[j]).base)
                    &&& final(self)@.devices == #[trigger] old(self)@.devices.insert(
                        p,
                        DevView { base: addr, bytes: zero_bytes(size) },
                    )
                },
    {
        proof {
            assert forall|i: int| 0 <= i < self.mmio@.len() implies (#[trigger] self.mmio@[i]).base
                != addr by {
                assert(self.mmio@[i] == old(self)@.devices[i]);
            }
        }
        let p = self.mmio.add(addr, size);
        self.mmio_begin = self.mmio.first_base();
        proof {
            let ghost q = p as int;
            assert({
                &&& 0 <= q <= old(self)@.devices.len()
                &&& (forall|j: int|
                    0 <= j < q ==> (#[trigger] old(self)@.devices[j]).base < addr)
                &&& (forall|j: int|
                    q <= j < old(self)@.devices.len() ==> addr < (#[trigger] old(
                        self,
                    )@.devices[j]).base)
                &&& final(self)@.devices == old(self)@.devices.insert(
                    q,
                    DevView { base: addr, bytes: zero_bytes(size) },
                )
            });
        }
    }

    /// Bulk-loads a program image: word `w` of `binary` lands at byte
    /// address `4*w`, little-endian, at byte granularity.  The image must
    /// fit in RAM; that is checked by the caller at load time.
    pub fn prog(&mut self, binary: Vec<Vec<u8>>)
        requires
            old(self).wf(),
            4 * binary@.len() < old(self)@.ram.len(),
            forall|w: int| 0 <= w < binary@.len() ==> (#[trigger] binary@[w])@.len() <= 4,
        ensures
            final(self).wf(),
            final(self)@.devices == old(self)@.devices,
            final(self)@.ram.len() == old(self)@.ram.len(),
            forall|a: int|
                0 <= a < old(self)@.ram.len() ==> final(self)@.ram[a] == (if a / 4
                    < binary@.len() && a % 4 < binary@[a / 4]@.len() {
                    Some(binary@[a / 4]@[a % 4])
                } else {
                    old(self)@.ram[a]
                }),
    {
        let mut null = NullLogger;
        let mut word_addr: usize = 0;
        while word_addr < binary.len()
            invariant
                self.wf(),
                4 * binary@.len() < self@.ram.len(),
                forall|w: int| 0 <= w < binary@.len() ==> (#[trigger] binary@[w])@.len() <= 4,
                word_addr <= binary@.len(),
                self@.devices == old(self)@.devices,
                self@.ram.len() == old(self)@.ram.len(),
                forall|a: int|
                    0 <= a < old(self)@.ram.len() ==> self@.ram[a] == (if a / 4 < word_addr && a
                        % 4 < binary@[a / 4]@.len() {
                        Some(binary@[a / 4]@[a % 4])
                    } else {
                        old(self)@.ram[a]
                    }),
            decreases binary@.len() - word_addr,
        {
            let word: &Vec<u8> = &binary[word_addr];
            let mut byte_offset: usize = 0;
            while byte_offset < word.len()
                invariant
                    self.wf(),
                    4 * binary@.len() < self@.ram.len(),
                    forall|w: int| 0 <= w < binary@.len() ==> (#[trigger] binary@[w])@.len() <= 4,
                    word_addr < binary@.len(),
                    word == binary@[word_addr as int],
                    byte_offset <= word@.len(),
                    self@.devices == old(self)@.devices,
                    self@.ram.len() == old(self)@.ram.len(),
                    forall|a: int|
                        0 <= a < old(self)@.ram.len() ==> self@.ram[a] == (if (a / 4 < word_addr
                            && a % 4 < binary@[a / 4]@.len()) || (a / 4 == word_addr && a % 4
                            < byte_offset) {
                            Some(binary@[a / 4]@[a % 4])
                        } else {
                            old(self)@.ram[a]
                        }),
                decreases word@.len() - byte_offset,
            {
                let byte: u8 = word[byte_offset];
                let addr: u32 = ((word_addr * 4 + byte_offset) as u32);
                proof {
                    assert((4 * (word_addr as int) + (byte_offset as int)) / 4 == word_addr as int
                        && (4 * (word_addr as int) + (byte_offset as int)) % 4
                        == byte_offset as int) by (nonlinear_arith)
                        requires
                            0 <= byte_offset < 4,
                            0 <= word_addr,
                    ;
                }
                self.wr(addr, byte as u32, Size::Byte, &mut null);
                byte_offset = byte_offset + 1;
            }
            word_addr = word_addr + 1;
        }
    }
}

// ------------------------------------------------------------------
// Laws of the memory subsystem.
// ------------------------------------------------------------------

/// Little-endian decomposition reassembles to the masked value.
pub proof fn lemma_le_recompose(data: u32)
    by (bit_vector)
    ensures
        data & 0xffffffff == data,
        data % 0x100 == (data & 0xff),
        (data % 0x100) + 0x100 * ((data / 0x100) % 0x100) == (data & 0xffff),
        (data % 0x100) + 0x100 * ((data / 0x100) % 0x100) + 0x10000 * ((data / 0x10000) % 0x100)
            + 0x1000000 * ((data / 0x1000000) % 0x100) == data,
{
}

/// Writing `data` at a RAM address and reading it back with the same
/// width returns `data` masked to that width, in every memory state.
pub proof fn lemma_mem_write_read(m: MemView, addr: u32, data: u32, size: Size)
    requires
        addr + width(size) <= m.ram.len(),
    ensures
        mem_read(mem_write(m, addr, data, size), addr, size) == data & width_mask(size),
{
    lemma_le_recompose(data);
}

/// MMIO isolation: a write routed to the device table leaves every RAM
/// byte unchanged, and a write routed to RAM leaves every device
/// unchanged.
pub proof fn lemma_mmio_isolation(m: MemView, addr: u32, data: u32, size: Size)
    ensures
        addr >= m.ram.len() ==> mem_write(m, addr, data, size).ram == m.ram,
        addr < m.ram.len() ==> mem_write(m, addr, data, size).devices == m.devices,
{
}

} // verus!
