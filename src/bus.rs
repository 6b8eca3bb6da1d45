use vstd::prelude::*;

use crate::clint::Clint;
use crate::device::Device;
use crate::htif::Htif;
use crate::irq::Interrupt;
use crate::mem::{le16, le32, le64, put16, put32, put64};
use crate::plic::Plic;
use crate::ram::{fits, Ram};
use crate::rom::Rom;
use crate::rtc::Rtc;
use crate::uart::Uart8250;
use crate::virtio::{BlkDevice, Desc, Queue, REG_QUEUE_NOTIFY, BLK_S_IOERR, BLK_S_OK, BLK_S_UNSUPP, DESC_NEXT, MAX_QUEUES, REQ_IN, REQ_OUT};

verus! {

/// A device that the bus can hold.
pub enum Dev {
    Ram(Ram),
    Rom(Rom),
    Htif(Htif),
    Rtc(Rtc),
    Clint(Clint),
    Plic(Plic),
    Uart(Uart8250),
    Blk(BlkDevice),
}

pub open spec fn same_kind(a: Dev, b: Dev) -> bool {
    match (a, b) {
        (Dev::Ram(_), Dev::Ram(_)) => true,
        (Dev::Rom(_), Dev::Rom(_)) => true,
        (Dev::Htif(_), Dev::Htif(_)) => true,
        (Dev::Rtc(_), Dev::Rtc(_)) => true,
        (Dev::Clint(_), Dev::Clint(_)) => true,
        (Dev::Plic(_), Dev::Plic(_)) => true,
        (Dev::Uart(_), Dev::Uart(_)) => true,
        (Dev::Blk(_), Dev::Blk(_)) => true,
        _ => false,
    }
}

pub open spec fn dev_wf(d: Dev) -> bool {
    match d {
        Dev::Plic(p) => p.wf(),
        Dev::Blk(b) => b.wf(),
        _ => true,
    }
}

/// The contents of a ROM device; empty for any other kind.
pub open spec fn rom_of(d: Dev) -> Seq<u8> {
    match d {
        Dev::Rom(r) => r@,
        _ => Seq::empty(),
    }
}

/// The contents of a RAM device; empty for any other kind.
pub open spec fn ram_of(d: Dev) -> Seq<u8> {
    match d {
        Dev::Ram(r) => r@,
        _ => Seq::empty(),
    }
}

/// What RAM holding `s` gives for a double read at `a`.
pub open spec fn ram_read_double(s: Seq<u8>, a: usize) -> Result<u64, Interrupt> {
    if fits(a, 8, s.len()) {
        Ok(le64(s, a as int))
    } else {
        Err(Interrupt::MemoryFault(a))
    }
}

/// RAM holding `s` after a double write of `v` at `a`.
pub open spec fn ram_write_double(s: Seq<u8>, a: usize, v: u64) -> Seq<u8> {
    if fits(a, 8, s.len()) {
        put64(s, a as int, v)
    } else {
        s
    }
}
/// What RAM holding `s` gives for a word read at `a`.
pub open spec fn ram_read_word(s: Seq<u8>, a: usize) -> Result<u32, Interrupt> {
    if fits(a, 4, s.len()) {
        Ok(le32(s, a as int))
    } else {
        Err(Interrupt::MemoryFault(a))
    }
}

/// RAM holding `s` after a word write of `v` at `a`.
pub open spec fn ram_write_word(s: Seq<u8>, a: usize, v: u32) -> Seq<u8> {
    if fits(a, 4, s.len()) {
        put32(s, a as int, v)
    } else {
        s
    }
}
/// What RAM holding `s` gives for a half read at `a`.
pub open spec fn ram_read_half(s: Seq<u8>, a: usize) -> Result<u16, Interrupt> {
    if fits(a, 2, s.len()) {
        Ok(le16(s, a as int))
    } else {
        Err(Interrupt::MemoryFault(a))
    }
}

/// RAM holding `s` after a half write of `v` at `a`.
pub open spec fn ram_write_half(s: Seq<u8>, a: usize, v: u16) -> Seq<u8> {
    if fits(a, 2, s.len()) {
        put16(s, a as int, v)
    } else {
        s
    }
}
/// What RAM holding `s` gives for a byte read at `a`.
pub open spec fn ram_read_byte(s: Seq<u8>, a: usize) -> Result<u8, Interrupt> {
    if fits(a, 1, s.len()) {
        Ok(s[a as int])
    } else {
        Err(Interrupt::MemoryFault(a))
    }
}

/// RAM holding `s` after a byte write of `v` at `a`.
pub open spec fn ram_write_byte(s: Seq<u8>, a: usize, v: u8) -> Seq<u8> {
    if fits(a, 1, s.len()) {
        s.update(a as int, v)
    } else {
        s
    }
}
/// At a RAM-backed address, a word read after a word write gives the value
/// written; so for the other widths below.
pub proof fn lemma_ram_word_write_read(s: Seq<u8>, a: usize, v: u32)
    requires
        fits(a, 4, s.len()),
    ensures
        ram_read_word(ram_write_word(s, a, v), a) == Ok::<u32, Interrupt>(v),
{
    crate::mem::lemma_read_write_32(s, a as int, v);
}

pub proof fn lemma_ram_double_write_read(s: Seq<u8>, a: usize, v: u64)
    requires
        fits(a, 8, s.len()),
    ensures
        ram_read_double(ram_write_double(s, a, v), a) == Ok::<u64, Interrupt>(v),
{
    crate::mem::lemma_read_write_64(s, a as int, v);
}

pub proof fn lemma_ram_half_write_read(s: Seq<u8>, a: usize, v: u16)
    requires
        fits(a, 2, s.len()),
    ensures
        ram_read_half(ram_write_half(s, a, v), a) == Ok::<u16, Interrupt>(v),
{
    crate::mem::lemma_read_write_16(s, a as int, v);
}

pub proof fn lemma_ram_byte_write_read(s: Seq<u8>, a: usize, v: u8)
    requires
        fits(a, 1, s.len()),
    ensures
        ram_read_byte(ram_write_byte(s, a, v), a) == Ok::<u8, Interrupt>(v),
{
}

/// A device mapped at the half-open address range `[start, end)`.
pub struct Mapping {
    pub start: usize,
    pub end: usize,
    pub dev: Dev,
}

pub open spec fn covers(m: Mapping, addr: usize) -> bool {
    m.start <= addr < m.end
}

/// The first mapping from `i` on that covers `addr`.
pub open spec fn owner_from(s: Seq<Mapping>, addr: usize, i: int) -> Option<int>
    decreases s.len() - i,
{
    if i < 0 || i >= s.len() {
        None
    } else if covers(s[i], addr) {
        Some(i)
    } else {
        owner_from(s, addr, i + 1)
    }
}

/// The mapping that serves `addr`.
pub open spec fn owner(s: Seq<Mapping>, addr: usize) -> Option<int> {
    owner_from(s, addr, 0)
}

pub proof fn lemma_owner_from_bounds(s: Seq<Mapping>, addr: usize, i: int)
    requires
        0 <= i,
    ensures
        owner_from(s, addr, i) is Some ==> i <= owner_from(s, addr, i)->0 < s.len() && covers(
            s[owner_from(s, addr, i)->0],
            addr,
        ),
    decreases s.len() - i,
{
    if i < s.len() && !covers(s[i], addr) {
        lemma_owner_from_bounds(s, addr, i + 1);
    }
}

/// A guest-physical address as a bus address.
pub open spec fn bus_addr(a: u64) -> usize {
    a as usize
}

#[verifier::truncate]
pub fn guest_addr(a: u64) -> (r: usize)
    ensures
        r == bus_addr(a),
{
    a as usize
}

/// The value a load with `funct3` reads at `a` where RAM serves that
/// address: sign-extended for LB, LH, LW; zero-extended for LBU, LHU, LWU.
pub open spec fn ram_load(devs: Seq<Mapping>, a: usize, funct3: u8) -> Option<u64> {
    match owner(devs, a) {
        Some(i) => match devs[i].dev {
            Dev::Ram(r) => {
                let off = (a - devs[i].start) as usize;
                if funct3 == 0 {
                    match ram_read_byte(r@, off) {
                        Ok(v) => Some(v as i8 as i64 as u64),
                        Err(_) => None,
                    }
                } else if funct3 == 1 {
                    match ram_read_half(r@, off) {
                        Ok(v) => Some(v as i16 as i64 as u64),
                        Err(_) => None,
                    }
                } else if funct3 == 2 {
                    match ram_read_word(r@, off) {
                        Ok(v) => Some(v as i32 as i64 as u64),
                        Err(_) => None,
                    }
                } else if funct3 == 3 {
                    match ram_read_double(r@, off) {
                        Ok(v) => Some(v),
                        Err(_) => None,
                    }
                } else if funct3 == 4 {
                    match ram_read_byte(r@, off) {
                        Ok(v) => Some(v as u64),
                        Err(_) => None,
                    }
                } else if funct3 == 5 {
                    match ram_read_half(r@, off) {
                        Ok(v) => Some(v as u64),
                        Err(_) => None,
                    }
                } else if funct3 == 6 {
                    match ram_read_word(r@, off) {
                        Ok(v) => Some(v as u64),
                        Err(_) => None,
                    }
                } else {
                    None
                }
            },
            _ => None,
        },
        None => None,
    }
}

/// The software-interrupt flag of the first CLINT from mapping `j` on.
pub open spec fn msip_from(s: Seq<Mapping>, j: int) -> bool
    decreases s.len() - j,
{
    if j < 0 || j >= s.len() {
        false
    } else {
        match s[j].dev {
            Dev::Clint(c) => c.msip,
            _ => msip_from(s, j + 1),
        }
    }
}

/// Whether the first PLIC from mapping `j` on has a source that machine mode
/// of hart 0 may claim.
pub open spec fn external_from(s: Seq<Mapping>, j: int) -> bool
    decreases s.len() - j,
{
    if j < 0 || j >= s.len() {
        false
    } else {
        match s[j].dev {
            Dev::Plic(p) => p.best(0) != 0,
            _ => external_from(s, j + 1),
        }
    }
}

/// The index of the first UART from mapping `j` on: the console.
pub open spec fn console_from(s: Seq<Mapping>, j: int) -> Option<int>
    decreases s.len() - j,
{
    if j < 0 || j >= s.len() {
        None
    } else if s[j].dev is Uart {
        Some(j)
    } else {
        console_from(s, j + 1)
    }
}

/// The UART of a mapping, where it is one.
pub open spec fn uart_of(d: Dev) -> Uart8250
    recommends
        d is Uart,
{
    match d {
        Dev::Uart(u) => u,
        _ => arbitrary(),
    }
}

proof fn lemma_console_from_bounds(s: Seq<Mapping>, j: int)
    requires
        0 <= j,
    ensures
        console_from(s, j) is Some ==> j <= console_from(s, j)->0 < s.len() && s[console_from(
            s,
            j,
        )->0].dev is Uart,
    decreases s.len() - j,
{
    if j < s.len() && !(s[j].dev is Uart) {
        lemma_console_from_bounds(s, j + 1);
    }
}

/// The index of the first PLIC from mapping `j` on.
pub open spec fn plic_from(s: Seq<Mapping>, j: int) -> Option<int>
    decreases s.len() - j,
{
    if j < 0 || j >= s.len() {
        None
    } else if s[j].dev is Plic {
        Some(j)
    } else {
        plic_from(s, j + 1)
    }
}

/// The PLIC of a mapping, where it is one.
pub open spec fn plic_of(d: Dev) -> Plic
    recommends
        d is Plic,
{
    match d {
        Dev::Plic(p) => p,
        _ => arbitrary(),
    }
}

/// No device on the bus is the host interface, the one device that halts.
pub open spec fn no_htif(s: Seq<Mapping>) -> bool {
    forall|j: int| 0 <= j < s.len() ==> !(#[trigger] s[j].dev is Htif)
}

/// The half word that RAM holds at bus address `a`, where RAM serves it.
pub open spec fn ram_half_at(devs: Seq<Mapping>, a: usize) -> Option<u16> {
    match owner(devs, a) {
        Some(i) => match devs[i].dev {
            Dev::Ram(r) => match ram_read_half(r@, (a - devs[i].start) as usize) {
                Ok(v) => Some(v),
                Err(_) => None,
            },
            _ => None,
        },
        None => None,
    }
}

/// The half word that memory (RAM or ROM) holds at bus address `a`, where
/// memory serves it.
pub open spec fn mem_half_at(devs: Seq<Mapping>, a: usize) -> Option<u16> {
    match owner(devs, a) {
        Some(i) => match devs[i].dev {
            Dev::Ram(r) => match ram_read_half(r@, (a - devs[i].start) as usize) {
                Ok(v) => Some(v),
                Err(_) => None,
            },
            Dev::Rom(r) => match ram_read_half(r@, (a - devs[i].start) as usize) {
                Ok(v) => Some(v),
                Err(_) => None,
            },
            _ => None,
        },
        None => None,
    }
}

/// The bytes of the RAM that serves `a` after a store with `funct3` (SB,
/// SH, SW, SD) of the low bytes of `v`, where RAM serves the address and the
/// store fits.
pub open spec fn ram_store(devs: Seq<Mapping>, a: usize, funct3: u8, v: u64) -> Option<Seq<u8>> {
    match owner(devs, a) {
        Some(i) => match devs[i].dev {
            Dev::Ram(r) => {
                let off = (a - devs[i].start) as usize;
                let n: usize = if funct3 == 0 {
                    1
                } else if funct3 == 1 {
                    2
                } else if funct3 == 2 {
                    4
                } else {
                    8
                };
                if funct3 > 3 || !fits(off, n, r@.len()) {
                    None
                } else if funct3 == 0 {
                    Some(ram_write_byte(r@, off, v as u8))
                } else if funct3 == 1 {
                    Some(ram_write_half(r@, off, v as u16))
                } else if funct3 == 2 {
                    Some(ram_write_word(r@, off, v as u32))
                } else {
                    Some(ram_write_double(r@, off, v))
                }
            },
            _ => None,
        },
        None => None,
    }
}

/// The low bytes of `v` that a store with `funct3` writes, as a value.
pub open spec fn stored_value(funct3: u8, v: u64) -> u64 {
    if funct3 == 0 {
        v as u8 as u64
    } else if funct3 == 1 {
        v as u16 as u64
    } else if funct3 == 2 {
        v as u32 as u64
    } else {
        v
    }
}

/// The load that reads back what a store with `funct3` wrote, unextended:
/// LBU, LHU, LWU or LD.
pub open spec fn reload_funct3(funct3: u8) -> u8 {
    if funct3 == 3 {
        3
    } else {
        (funct3 + 4) as u8
    }
}

/// A store to RAM followed by the load of the same width from the same
/// address reads the value stored, where nothing else changed in between.
pub proof fn lemma_store_then_load(a: Seq<Mapping>, b: Seq<Mapping>, addr: usize, funct3: u8, v: u64)
    requires
        ram_store(a, addr, funct3, v) is Some,
        same_layout(a, b),
        ram_of(b[owner(a, addr)->0].dev) == ram_store(a, addr, funct3, v)->0,
        forall|j: int| 0 <= j < a.len() && j != owner(a, addr)->0 ==> b[j] == a[j],
    ensures
        ram_load(b, addr, reload_funct3(funct3)) == Some(stored_value(funct3, v)),
{
    lemma_owner_same_layout(a, b, addr, 0);
    lemma_owner_from_bounds(a, addr, 0);
    let i = owner(a, addr)->0;
    assert(same_kind(a[i].dev, b[i].dev));
    let s = ram_of(a[i].dev);
    let off = (addr - a[i].start) as usize;
    if funct3 == 0 {
        lemma_ram_byte_write_read(s, off, v as u8);
    } else if funct3 == 1 {
        lemma_ram_half_write_read(s, off, v as u16);
    } else if funct3 == 2 {
        lemma_ram_word_write_read(s, off, v as u32);
    } else {
        lemma_ram_double_write_read(s, off, v);
    }
}

/// A store to RAM lands the same, at the same mapping, in device lists whose
/// RAM agrees.
pub proof fn lemma_ram_same_store(a: Seq<Mapping>, b: Seq<Mapping>, addr: usize, funct3: u8, v: u64)
    requires
        ram_same(a, b),
    ensures
        ram_store(a, addr, funct3, v) == ram_store(b, addr, funct3, v),
        owner(a, addr) == owner(b, addr),
{
    lemma_owner_same_layout(a, b, addr, 0);
    lemma_owner_from_bounds(a, addr, 0);
    if owner(a, addr) is Some {
        let i = owner(a, addr)->0;
        assert(b[i] == a[i] || (a[i].dev is Ram && ram_of(b[i].dev) == ram_of(a[i].dev)) || (a[i].dev is Rom
            && rom_of(b[i].dev) == rom_of(a[i].dev)));
        assert(same_kind(a[i].dev, b[i].dev));
    }
}

/// Device lists that agree, but in mapping `k` and in mappings whose RAM or
/// ROM holds the same bytes.
pub open spec fn ram_same_except(a: Seq<Mapping>, b: Seq<Mapping>, k: int) -> bool {
    &&& same_layout(a, b)
    &&& forall|j: int|
        0 <= j < a.len() && j != k ==> #[trigger] b[j] == a[j] || (a[j].dev is Ram && ram_of(b[j].dev)
            == ram_of(a[j].dev)) || (a[j].dev is Rom && rom_of(b[j].dev) == rom_of(a[j].dev))
}

/// The byte that RAM holds at bus address `a`, where RAM serves it.
pub open spec fn ram_byte_at(devs: Seq<Mapping>, a: usize) -> Option<u8> {
    match owner(devs, a) {
        Some(i) => match devs[i].dev {
            Dev::Ram(r) => match ram_read_byte(r@, (a - devs[i].start) as usize) {
                Ok(v) => Some(v),
                Err(_) => None,
            },
            _ => None,
        },
        None => None,
    }
}

/// The `n` bytes that RAM holds from `addr` on.
pub open spec fn ram_bytes(devs: Seq<Mapping>, addr: usize, n: nat) -> Seq<u8> {
    Seq::new(n, |k: int| ram_byte_at(devs, (addr + k) as usize)->0)
}

/// The descriptor `idx` of the table at guest address `table`, where RAM holds
/// its sixteen bytes.
#[verifier::opaque]
pub open spec fn desc_spec(devs: Seq<Mapping>, table: u64, idx: u16) -> Option<Desc> {
    let base = bus_addr(table).wrapping_add((16 * idx) as usize);
    if ram_range(devs, base, 16) {
        let bs = ram_bytes(devs, base, 16);
        Some(Desc { addr: le64(bs, 0), len: le32(bs, 8), flags: le16(bs, 12), next: le16(bs, 14) })
    } else {
        None
    }
}

/// A chain of three descriptors from `head` (the request header, one data
/// buffer, the status byte), where RAM holds them.
pub open spec fn chain3(devs: Seq<Mapping>, table: u64, head: u16) -> Option<Seq<Desc>> {
    match desc_spec(devs, table, head) {
        Some(d0) => if d0.flags & DESC_NEXT == 0 {
            None
        } else {
            match desc_spec(devs, table, d0.next) {
                Some(d1) => if d1.flags & DESC_NEXT == 0 {
                    None
                } else {
                    match desc_spec(devs, table, d1.next) {
                        Some(d2) => if d2.flags & DESC_NEXT != 0 {
                            None
                        } else {
                            Some(seq![d0, d1, d2])
                        },
                        None => None,
                    }
                },
                None => None,
            }
        },
        None => None,
    }
}

/// What a chain of three descriptors is made of.
pub proof fn lemma_chain3(devs: Seq<Mapping>, table: u64, head: u16)
    requires
        chain3(devs, table, head) is Some,
    ensures
        ({
            let c = chain3(devs, table, head)->0;
            &&& c.len() == 3
            &&& desc_spec(devs, table, head) == Some(c[0])
            &&& c[0].flags & DESC_NEXT != 0
            &&& desc_spec(devs, table, c[0].next) == Some(c[1])
            &&& c[1].flags & DESC_NEXT != 0
            &&& desc_spec(devs, table, c[1].next) == Some(c[2])
            &&& c[2].flags & DESC_NEXT == 0
        }),
{
}

/// Descriptors read the same from device lists whose RAM agrees.
pub proof fn lemma_ram_same_desc(a: Seq<Mapping>, b: Seq<Mapping>, table: u64, idx: u16)
    requires
        ram_same(a, b),
    ensures
        desc_spec(a, table, idx) == desc_spec(b, table, idx),
{
    assert forall|x: usize| ram_byte_at(a, x) == ram_byte_at(b, x) by {
        lemma_ram_same_reads(a, b, x, 0);
    }
    lemma_bytes_desc(a, b, table, idx);
}

/// Descriptors read the same where every RAM byte reads the same.
pub proof fn lemma_bytes_desc(a: Seq<Mapping>, b: Seq<Mapping>, table: u64, idx: u16)
    requires
        forall|x: usize| ram_byte_at(a, x) == ram_byte_at(b, x),
    ensures
        desc_spec(a, table, idx) == desc_spec(b, table, idx),
{
    reveal(desc_spec);
    let base = bus_addr(table).wrapping_add((16 * idx) as usize);
    assert(ram_bytes(a, base, 16) =~= ram_bytes(b, base, 16));
}

/// A request reads the same from device lists whose RAM bytes and block
/// device agree, and is served the same into them.
pub proof fn lemma_request_same(a: Seq<Mapping>, b: Seq<Mapping>, n1: Seq<Mapping>, n2: Seq<Mapping>, i: int, q: Queue, idx: u16)
    requires
        a.len() == b.len(),
        0 <= i < a.len(),
        (a[i].dev is Blk) == (b[i].dev is Blk),
        dev_wf(a[i].dev) == dev_wf(b[i].dev),
        blk_of(a[i].dev).disk@ == blk_of(b[i].dev).disk@,
        forall|x: usize| ram_byte_at(a, x) == ram_byte_at(b, x),
        forall|x: usize| ram_byte_at(n1, x) == ram_byte_at(n2, x),
        0 <= i < n1.len() && 0 <= i < n2.len(),
        blk_of(n1[i].dev).disk@ == blk_of(n2[i].dev).disk@,
    ensures
        request_laid_out(a, i, q, idx) == request_laid_out(b, i, q, idx),
        request_laid_out(a, i, q, idx) ==> request_served(a, n1, i, q, idx) == request_served(b, n2, i, q, idx),
{
    assert forall|x: usize, n: nat| #[trigger] ram_bytes(a, x, n) == ram_bytes(b, x, n) by {
        assert(ram_bytes(a, x, n) =~= ram_bytes(b, x, n));
    }
    assert forall|x: usize, n: nat| #[trigger] ram_bytes(n1, x, n) == ram_bytes(n2, x, n) by {
        assert(ram_bytes(n1, x, n) =~= ram_bytes(n2, x, n));
    }
    assert forall|x: usize, n: nat| #[trigger] ram_range(a, x, n) == ram_range(b, x, n) by {
    }
    assert forall|t: u64, h: u16| #[trigger] chain3(a, t, h) == chain3(b, t, h) by {
        lemma_bytes_desc(a, b, t, h);
        if desc_spec(a, t, h) is Some {
            lemma_bytes_desc(a, b, t, desc_spec(a, t, h)->0.next);
            if desc_spec(a, t, desc_spec(a, t, h)->0.next) is Some {
                lemma_bytes_desc(a, b, t, desc_spec(a, t, desc_spec(a, t, h)->0.next)->0.next);
            }
        }
    }
}

/// The first PLIC is at the same index in device lists of the same layout.
pub proof fn lemma_plic_from_layout(a: Seq<Mapping>, b: Seq<Mapping>, j: int)
    requires
        same_layout(a, b),
        0 <= j,
    ensures
        plic_from(a, j) == plic_from(b, j),
        plic_from(a, j) is Some ==> j <= plic_from(a, j)->0 < a.len() && a[plic_from(a, j)->0].dev is Plic,
    decreases a.len() - j,
{
    if j < a.len() {
        assert(same_kind(a[j].dev, b[j].dev));
        lemma_plic_from_layout(a, b, j + 1);
    }
}

/// What a word write of `val` at `addr`, served by mapping `i`, does when it
/// is a QueueNotify for queue `val` of a block device whose queue is ready and
/// whose available ring is in RAM: the notification is consumed, the device's
/// position in the ring reaches the ring's index, the used-buffer interrupt is
/// flagged, the device's PLIC source is pending at the first PLIC, and where
/// the driver made one request available and laid it out in RAM, that
/// request is served.
pub open spec fn queue_notify_served(old: Seq<Mapping>, new: Seq<Mapping>, i: int, addr: usize, val: u32) -> bool {
    let b = blk_of(old[i].dev);
    let nb = blk_of(new[i].dev);
    let q = val as int;
    let queue = b.queues@[q];
    let ring = ram_half_at(old, bus_addr(queue.driver).wrapping_add(2));
    let k = plic_from(old, 0)->0;
    old[i].dev is Blk && (addr - old[i].start) == REG_QUEUE_NOTIFY && q < MAX_QUEUES && queue.ready
        && queue.size > 0 && ring is Some ==> {
        &&& nb.notify is None
        &&& nb.queues@[q].last_avail == ring->0
        &&& nb.interrupt_status & 1 == 1
        &&& plic_from(old, 0) is Some && b.irq < crate::plic::NUM_SOURCES ==> plic_of(new[k].dev).is_pending(
            b.irq as int,
        )
        &&& ring->0 == queue.last_avail.wrapping_add(1) && request_laid_out(old, i, queue, queue.last_avail)
            ==> request_served(old, new, i, queue, queue.last_avail)
    }
}

/// RAM bytes read the same where every RAM device is unchanged.
pub proof fn lemma_ram_devices_same(a: Seq<Mapping>, b: Seq<Mapping>, x: usize)
    requires
        same_layout(a, b),
        forall|j: int| 0 <= j < a.len() && a[j].dev is Ram ==> ram_of(b[j].dev) == ram_of(a[j].dev),
    ensures
        ram_byte_at(a, x) == ram_byte_at(b, x),
        ram_half_at(a, x) == ram_half_at(b, x),
{
    lemma_owner_same_layout(a, b, x, 0);
    lemma_owner_from_bounds(a, x, 0);
    if owner(a, x) is Some {
        let j = owner(a, x)->0;
        assert(same_kind(a[j].dev, b[j].dev));
    }
}

/// The little-endian bytes of a half word.
pub open spec fn le_bytes16(v: u16) -> Seq<u8> {
    seq![(v & 0xff) as u8, ((v >> 8u16) & 0xff) as u8]
}

/// The little-endian bytes of a word.
pub open spec fn le_bytes32(v: u32) -> Seq<u8> {
    seq![(v & 0xff) as u8, ((v >> 8u32) & 0xff) as u8, ((v >> 16u32) & 0xff) as u8, ((v >> 24u32) & 0xff) as u8]
}

/// A block request on queue `q` at available entry `idx` laid out in RAM:
/// the ring slot, a chain of three descriptors (header, data buffer, status
/// byte), the header, buffer, status byte and used ring all in RAM; buffer,
/// status byte and used ring apart; an IN or OUT request within the image of
/// the block device of mapping `i`.
pub open spec fn request_laid_out(devs: Seq<Mapping>, i: int, q: Queue, idx: u16) -> bool {
    let size = q.size as usize;
    let ring = bus_addr(q.driver).wrapping_add(4).wrapping_add(((idx as usize) % size).wrapping_mul(2));
    let head = le16(ram_bytes(devs, ring, 2), 0);
    let c = chain3(devs, q.desc, head)->0;
    let hdr = bus_addr(c[0].addr);
    let hb = ram_bytes(devs, hdr, 16);
    let buf = bus_addr(c[1].addr);
    let len = c[1].len;
    let st = bus_addr(c[2].addr);
    let used = bus_addr(q.device);
    let disk = blk_of(devs[i].dev).disk@;
    &&& 3 <= q.size <= 0x1_0000
    &&& 0 <= i < devs.len() && devs[i].dev is Blk && dev_wf(devs[i].dev)
    &&& ram_range(devs, ring, 2)
    &&& chain3(devs, q.desc, head) is Some
    &&& ram_range(devs, hdr, 16)
    &&& (le32(hb, 0) == REQ_IN || le32(hb, 0) == REQ_OUT)
    &&& le64(hb, 8) * 512 + len <= disk.len()
    &&& ram_range(devs, buf, len as nat)
    &&& ram_range(devs, st, 1)
    &&& ram_range(devs, used, (4 + 8 * size) as nat)
    &&& !(buf <= st < buf + len)
    &&& !(used <= st < used + 4 + 8 * size)
    &&& (buf + len <= used || used + 4 + 8 * size <= buf)
}

/// What serving such a request leaves: for IN the buffer holds the image's
/// bytes, for OUT the image holds the buffer's bytes; the status byte is OK;
/// the used ring's entry at its old index is the chain's head and the bytes
/// written, and its index has moved on by one.
pub open spec fn request_served(old: Seq<Mapping>, new: Seq<Mapping>, i: int, q: Queue, idx: u16) -> bool {
    let size = q.size as usize;
    let ring = bus_addr(q.driver).wrapping_add(4).wrapping_add(((idx as usize) % size).wrapping_mul(2));
    let head = le16(ram_bytes(old, ring, 2), 0);
    let c = chain3(old, q.desc, head)->0;
    let hb = ram_bytes(old, bus_addr(c[0].addr), 16);
    let typ = le32(hb, 0);
    let off = le64(hb, 8) * 512;
    let buf = bus_addr(c[1].addr);
    let len = c[1].len;
    let st = bus_addr(c[2].addr);
    let used = bus_addr(q.device);
    let disk = blk_of(old[i].dev).disk@;
    let ui = le16(ram_bytes(old, (used + 2) as usize, 2), 0);
    let e = (used + 4 + 8 * (ui as int % size as int)) as usize;
    let written: u32 = if typ == REQ_IN { len } else { 0 };
    &&& typ == REQ_IN ==> forall|k: int| 0 <= k < len ==> #[trigger] ram_byte_at(new, (buf + k) as usize)
        == Some(disk[off + k])
    &&& typ == REQ_OUT ==> blk_of(new[i].dev).disk@ == disk.subrange(0, off) + ram_bytes(old, buf, len as nat)
        + disk.subrange(off + len, disk.len() as int)
    &&& ram_byte_at(new, st) == Some(BLK_S_OK)
    &&& ram_bytes(new, e, 8) == le_bytes32(head as u32) + le_bytes32(written.wrapping_add(1))
    &&& ram_bytes(new, (used + 2) as usize, 2) == le_bytes16(ui.wrapping_add(1))
}

/// Whether RAM serves each of the `n` bytes from `addr` on.
pub open spec fn ram_range(devs: Seq<Mapping>, addr: usize, n: nat) -> bool {
    &&& addr + n <= usize::MAX
    &&& forall|k: int| 0 <= k < n ==> #[trigger] ram_byte_at(devs, (addr + k) as usize) is Some
}

/// A byte write to RAM at `a` sets that byte and keeps every other.
pub proof fn lemma_byte_write(old: Seq<Mapping>, new: Seq<Mapping>, a: usize, v: u8, b: usize)
    requires
        ram_byte_at(old, a) is Some,
        same_layout(old, new),
        ram_of(new[owner(old, a)->0].dev) == ram_write_byte(
            ram_of(old[owner(old, a)->0].dev),
            (a - old[owner(old, a)->0].start) as usize,
            v,
        ),
        forall|j: int| 0 <= j < old.len() && j != owner(old, a)->0 ==> new[j] == old[j],
    ensures
        ram_byte_at(new, a) == Some(v),
        b != a ==> ram_byte_at(new, b) == ram_byte_at(old, b),
{
    lemma_owner_same_layout(old, new, a, 0);
    lemma_owner_same_layout(old, new, b, 0);
    lemma_owner_from_bounds(old, a, 0);
    lemma_owner_from_bounds(old, b, 0);
    let i = owner(old, a)->0;
    assert(same_kind(old[i].dev, new[i].dev));
}

/// Changing a device that is not RAM leaves what RAM holds as it was.
pub proof fn lemma_non_ram_change(a: Seq<Mapping>, b: Seq<Mapping>, i: int, x: usize)
    requires
        same_layout(a, b),
        0 <= i < a.len(),
        !(a[i].dev is Ram),
        forall|j: int| 0 <= j < a.len() && j != i ==> b[j] == a[j],
    ensures
        ram_byte_at(b, x) == ram_byte_at(a, x),
{
    lemma_owner_same_layout(a, b, x, 0);
    lemma_owner_from_bounds(a, x, 0);
    assert(same_kind(a[i].dev, b[i].dev));
}

pub proof fn lemma_ram_same_trans(a: Seq<Mapping>, b: Seq<Mapping>, c: Seq<Mapping>)
    requires
        ram_same(a, b),
        ram_same(b, c),
    ensures
        ram_same(a, c),
{
    lemma_same_layout_trans(a, b, c);
    assert forall|j: int| 0 <= j < a.len() implies #[trigger] c[j] == a[j] || (a[j].dev is Ram && ram_of(c[j].dev)
        == ram_of(a[j].dev)) || (a[j].dev is Rom && rom_of(c[j].dev) == rom_of(a[j].dev)) by {
        assert(b[j] == a[j] || (a[j].dev is Ram && ram_of(b[j].dev) == ram_of(a[j].dev)) || (a[j].dev is Rom
            && rom_of(b[j].dev) == rom_of(a[j].dev)));
        assert(c[j] == b[j] || (b[j].dev is Ram && ram_of(c[j].dev) == ram_of(b[j].dev)) || (b[j].dev is Rom
            && rom_of(c[j].dev) == rom_of(b[j].dev)));
        assert(same_kind(a[j].dev, b[j].dev));
    }
}

/// Device lists that agree but in mappings whose RAM or ROM holds the same
/// bytes.
pub open spec fn ram_same(a: Seq<Mapping>, b: Seq<Mapping>) -> bool {
    &&& same_layout(a, b)
    &&& forall|j: int|
        0 <= j < a.len() ==> #[trigger] b[j] == a[j] || (a[j].dev is Ram && ram_of(b[j].dev) == ram_of(
            a[j].dev,
        )) || (a[j].dev is Rom && rom_of(b[j].dev) == rom_of(a[j].dev))
}

/// What RAM holds is read the same from device lists that agree so.
pub proof fn lemma_ram_same_reads(a: Seq<Mapping>, b: Seq<Mapping>, addr: usize, funct3: u8)
    requires
        ram_same(a, b),
    ensures
        ram_load(a, addr, funct3) == ram_load(b, addr, funct3),
        ram_half_at(a, addr) == ram_half_at(b, addr),
        mem_half_at(a, addr) == mem_half_at(b, addr),
        ram_byte_at(a, addr) == ram_byte_at(b, addr),
{
    lemma_owner_same_layout(a, b, addr, 0);
    lemma_owner_from_bounds(a, addr, 0);
    if owner(a, addr) is Some {
        let i = owner(a, addr)->0;
        assert(b[i] == a[i] || (a[i].dev is Ram && ram_of(b[i].dev) == ram_of(a[i].dev)) || (a[i].dev is Rom
            && rom_of(b[i].dev) == rom_of(a[i].dev)));
        assert(same_kind(a[i].dev, b[i].dev));
    }
}

/// The block device of a mapping, where it is one.
pub open spec fn blk_of(d: Dev) -> BlkDevice
    recommends
        d is Blk,
{
    match d {
        Dev::Blk(b) => b,
        _ => arbitrary(),
    }
}

pub proof fn lemma_owner_same_layout(a: Seq<Mapping>, b: Seq<Mapping>, addr: usize, i: int)
    requires
        same_layout(a, b),
        0 <= i,
    ensures
        owner_from(a, addr, i) == owner_from(b, addr, i),
    decreases a.len() - i,
{
    if i < a.len() {
        lemma_owner_same_layout(a, b, addr, i + 1);
    }
}

/// Whether two ranges share an address.
pub open spec fn overlaps(a_start: usize, a_end: usize, b_start: usize, b_end: usize) -> bool {
    a_start < b_end && b_start < a_end
}

/// Device lists that hold the same kinds of device at the same ranges.
pub open spec fn same_layout(a: Seq<Mapping>, b: Seq<Mapping>) -> bool {
    &&& a.len() == b.len()
    &&& forall|j: int|
        0 <= j < a.len() ==> b[j].start == a[j].start && b[j].end == a[j].end && same_kind(
            a[j].dev,
            b[j].dev,
        )
}

pub proof fn lemma_same_layout_trans(a: Seq<Mapping>, b: Seq<Mapping>, c: Seq<Mapping>)
    requires
        same_layout(a, b),
        same_layout(b, c),
    ensures
        same_layout(a, c),
{
    assert forall|j: int| 0 <= j < a.len() implies c[j].start == a[j].start && c[j].end
        == a[j].end && same_kind(a[j].dev, c[j].dev) by {
        assert(same_kind(a[j].dev, b[j].dev) && same_kind(b[j].dev, c[j].dev));
    }
}

/// The address-routed bus: an ordered list of mappings whose ranges do not
/// overlap; an access goes to the device whose range holds the address, at
/// the offset from the start of that range.
pub struct DynBus {
    pub devices: Vec<Mapping>,
}

impl DynBus {
    pub open spec fn wf(&self) -> bool {
        forall|j: int| 0 <= j < self.devices@.len() ==> #[trigger] dev_wf(self.devices@[j].dev)
    }

    /// No two mappings share an address.
    pub open spec fn disjoint(&self) -> bool {
        forall|j: int, k: int|
            0 <= j < k < self.devices@.len() ==> !overlaps(
                #[trigger] self.devices@[j].start,
                self.devices@[j].end,
                #[trigger] self.devices@[k].start,
                self.devices@[k].end,
            )
    }

    pub fn new() -> (r: DynBus)
        ensures
            r.devices@.len() == 0,
            r.wf(),
            r.disjoint(),
    {
        DynBus { devices: Vec::new() }
    }

    /// Maps `device` at `range`. A range that is empty or overlaps one already
    /// mapped is refused: `false`, and the bus is unchanged.
    pub fn map(&mut self, device: Dev, range: std::ops::Range<usize>) -> (r: bool)
        requires
            dev_wf(device),
            old(self).wf(),
            old(self).disjoint(),
        ensures
            final(self).wf(),
            final(self).disjoint(),
            r == (range.start < range.end && forall|j: int|
                0 <= j < old(self).devices@.len() ==> !overlaps(
                    old(self).devices@[j].start,
                    old(self).devices@[j].end,
                    range.start,
                    range.end,
                )),
            r ==> final(self).devices@ == old(self).devices@.push(
                Mapping { start: range.start, end: range.end, dev: device },
            ),
            !r ==> final(self).devices@ == old(self).devices@,
    {
        if range.start >= range.end {
            return false;
        }
        let mut j: usize = 0;
        while j < self.devices.len()
            invariant
                j <= self.devices@.len(),
                self.devices@ == old(self).devices@,
                old(self).wf(),
                old(self).disjoint(),
                forall|k: int|
                    0 <= k < j ==> !overlaps(
                        self.devices@[k].start,
                        self.devices@[k].end,
                        range.start,
                        range.end,
                    ),
            decreases self.devices@.len() - j,
        {
            if range.start < self.devices[j].end && self.devices[j].start < range.end {
                return false;
            }
            j = j + 1;
        }
        self.devices.push(Mapping { start: range.start, end: range.end, dev: device });
        true
    }

    /// The index of the mapping that serves `addr`.
    pub fn find(&self, addr: usize) -> (r: Option<usize>)
        ensures
            r is None <==> owner(self.devices@, addr) is None,
            r is Some ==> r->0 == owner(self.devices@, addr)->0 && r->0 < self.devices@.len()
                && covers(self.devices@[r->0 as int], addr),
    {
        proof {
            lemma_owner_from_bounds(self.devices@, addr, 0);
        }
        let mut i: usize = 0;
        while i < self.devices.len()
            invariant
                i <= self.devices@.len(),
                owner(self.devices@, addr) == owner_from(self.devices@, addr, i as int),
            decreases self.devices@.len() - i,
        {
            if self.devices[i].start <= addr && addr < self.devices[i].end {
                return Some(i);
            }
            i = i + 1;
        }
        None
    }

    proof fn lemma_wf_at(&self, i: int)
        requires
            self.wf(),
            0 <= i < self.devices@.len(),
        ensures
            dev_wf(self.devices@[i].dev),
    {
    }

    /// A double read from the device of mapping `i` at offset `local`.
    fn access_read_double(&mut self, i: usize, local: usize) -> (r: Result<u64, Interrupt>)
        requires
            i < old(self).devices@.len(),
        ensures
            final(self).devices@.len() == old(self).devices@.len(),
            forall|j: int| 0 <= j < old(self).devices@.len() && j != i ==> final(self).devices@[j] == old(self).devices@[j],
            final(self).devices@[i as int].start == old(self).devices@[i as int].start,
            final(self).devices@[i as int].end == old(self).devices@[i as int].end,
            same_kind(old(self).devices@[i as int].dev, final(self).devices@[i as int].dev),
            dev_wf(old(self).devices@[i as int].dev) ==> dev_wf(final(self).devices@[i as int].dev),
            !(old(self).devices@[i as int].dev is Htif) ==> r != Err::<u64, Interrupt>(Interrupt::Halt),
            old(self).devices@[i as int].dev is Rom ==> r == ram_read_double(rom_of(old(self).devices@[i as int].dev), local)
                && rom_of(final(self).devices@[i as int].dev) == rom_of(old(self).devices@[i as int].dev),
            old(self).devices@[i as int].dev is Ram ==> r == ram_read_double(ram_of(old(self).devices@[i as int].dev), local)
                && ram_of(final(self).devices@[i as int].dev) == ram_of(old(self).devices@[i as int].dev),
    {
        match &mut self.devices[i].dev {
            Dev::Ram(d) => d.read_double(local),
            Dev::Rom(d) => d.read_double(local),
            Dev::Htif(d) => d.read_double(local),
            Dev::Rtc(d) => d.read_double(local),
            Dev::Clint(d) => d.read_double(local),
            Dev::Plic(d) => d.read_double(local),
            Dev::Uart(d) => d.read_double(local),
            Dev::Blk(d) => d.read_double(local),
        }
    }
    /// A double write to the device of mapping `i` at offset `local`.
    fn access_write_double(&mut self, i: usize, local: usize, val: u64) -> (r: Result<(), Interrupt>)
        requires
            i < old(self).devices@.len(),
        ensures
            final(self).devices@.len() == old(self).devices@.len(),
            forall|j: int| 0 <= j < old(self).devices@.len() && j != i ==> final(self).devices@[j] == old(self).devices@[j],
            final(self).devices@[i as int].start == old(self).devices@[i as int].start,
            final(self).devices@[i as int].end == old(self).devices@[i as int].end,
            same_kind(old(self).devices@[i as int].dev, final(self).devices@[i as int].dev),
            dev_wf(old(self).devices@[i as int].dev) ==> dev_wf(final(self).devices@[i as int].dev),
            !(old(self).devices@[i as int].dev is Htif) ==> r != Err::<(), Interrupt>(Interrupt::Halt),
            old(self).devices@[i as int].dev is Blk ==> blk_of(final(self).devices@[i as int].dev).disk@ == blk_of(old(self).devices@[i as int].dev).disk@
                && blk_of(final(self).devices@[i as int].dev).irq == blk_of(old(self).devices@[i as int].dev).irq,
            old(self).devices@[i as int].dev is Ram ==> ram_of(final(self).devices@[i as int].dev) == ram_write_double(ram_of(old(self).devices@[i as int].dev), local, val)
                && (r is Ok <==> fits(local, 8, ram_of(old(self).devices@[i as int].dev).len()))
                && (r is Err ==> r == Err::<(), Interrupt>(Interrupt::MemoryFault(local))),
    {
        match &mut self.devices[i].dev {
            Dev::Ram(d) => d.write_double(local, val),
            Dev::Rom(d) => d.write_double(local, val),
            Dev::Htif(d) => d.write_double(local, val),
            Dev::Rtc(d) => d.write_double(local, val),
            Dev::Clint(d) => d.write_double(local, val),
            Dev::Plic(d) => d.write_double(local, val),
            Dev::Uart(d) => d.write_double(local, val),
            Dev::Blk(d) => d.write_double(local, val),
        }
    }
    /// A word read from the device of mapping `i` at offset `local`.
    fn access_read_word(&mut self, i: usize, local: usize) -> (r: Result<u32, Interrupt>)
        requires
            i < old(self).devices@.len(),
        ensures
            final(self).devices@.len() == old(self).devices@.len(),
            forall|j: int| 0 <= j < old(self).devices@.len() && j != i ==> final(self).devices@[j] == old(self).devices@[j],
            final(self).devices@[i as int].start == old(self).devices@[i as int].start,
            final(self).devices@[i as int].end == old(self).devices@[i as int].end,
            same_kind(old(self).devices@[i as int].dev, final(self).devices@[i as int].dev),
            dev_wf(old(self).devices@[i as int].dev) ==> dev_wf(final(self).devices@[i as int].dev),
            !(old(self).devices@[i as int].dev is Htif) ==> r != Err::<u32, Interrupt>(Interrupt::Halt),
            old(self).devices@[i as int].dev is Rom ==> r == ram_read_word(rom_of(old(self).devices@[i as int].dev), local)
                && rom_of(final(self).devices@[i as int].dev) == rom_of(old(self).devices@[i as int].dev),
            old(self).devices@[i as int].dev is Ram ==> r == ram_read_word(ram_of(old(self).devices@[i as int].dev), local)
                && ram_of(final(self).devices@[i as int].dev) == ram_of(old(self).devices@[i as int].dev),
    {
        match &mut self.devices[i].dev {
            Dev::Ram(d) => d.read_word(local),
            Dev::Rom(d) => d.read_word(local),
            Dev::Htif(d) => d.read_word(local),
            Dev::Rtc(d) => d.read_word(local),
            Dev::Clint(d) => d.read_word(local),
            Dev::Plic(d) => d.read_word(local),
            Dev::Uart(d) => d.read_word(local),
            Dev::Blk(d) => d.read_word(local),
        }
    }
    /// A word write to the device of mapping `i` at offset `local`.
    fn access_write_word(&mut self, i: usize, local: usize, val: u32) -> (r: Result<(), Interrupt>)
        requires
            i < old(self).devices@.len(),
        ensures
            final(self).devices@.len() == old(self).devices@.len(),
            forall|j: int| 0 <= j < old(self).devices@.len() && j != i ==> final(self).devices@[j] == old(self).devices@[j],
            final(self).devices@[i as int].start == old(self).devices@[i as int].start,
            final(self).devices@[i as int].end == old(self).devices@[i as int].end,
            same_kind(old(self).devices@[i as int].dev, final(self).devices@[i as int].dev),
            dev_wf(old(self).devices@[i as int].dev) ==> dev_wf(final(self).devices@[i as int].dev),
            !(old(self).devices@[i as int].dev is Htif) ==> r != Err::<(), Interrupt>(Interrupt::Halt),
            old(self).devices@[i as int].dev is Blk ==> blk_of(final(self).devices@[i as int].dev).disk@ == blk_of(old(self).devices@[i as int].dev).disk@
                && blk_of(final(self).devices@[i as int].dev).irq == blk_of(old(self).devices@[i as int].dev).irq,
            old(self).devices@[i as int].dev is Blk && local == REG_QUEUE_NOTIFY && dev_wf(old(self).devices@[i as int].dev)
                ==> blk_of(final(self).devices@[i as int].dev).notify == Some(val)
                && blk_of(final(self).devices@[i as int].dev).queues@ == blk_of(old(self).devices@[i as int].dev).queues@
                && dev_wf(final(self).devices@[i as int].dev),
            old(self).devices@[i as int].dev is Ram ==> ram_of(final(self).devices@[i as int].dev) == ram_write_word(ram_of(old(self).devices@[i as int].dev), local, val)
                && (r is Ok <==> fits(local, 4, ram_of(old(self).devices@[i as int].dev).len()))
                && (r is Err ==> r == Err::<(), Interrupt>(Interrupt::MemoryFault(local))),
    {
        match &mut self.devices[i].dev {
            Dev::Ram(d) => d.write_word(local, val),
            Dev::Rom(d) => d.write_word(local, val),
            Dev::Htif(d) => d.write_word(local, val),
            Dev::Rtc(d) => d.write_word(local, val),
            Dev::Clint(d) => d.write_word(local, val),
            Dev::Plic(d) => d.write_word(local, val),
            Dev::Uart(d) => d.write_word(local, val),
            Dev::Blk(d) => d.write_word(local, val),
        }
    }
    /// A half read from the device of mapping `i` at offset `local`.
    fn access_read_half(&mut self, i: usize, local: usize) -> (r: Result<u16, Interrupt>)
        requires
            i < old(self).devices@.len(),
        ensures
            final(self).devices@.len() == old(self).devices@.len(),
            forall|j: int| 0 <= j < old(self).devices@.len() && j != i ==> final(self).devices@[j] == old(self).devices@[j],
            final(self).devices@[i as int].start == old(self).devices@[i as int].start,
            final(self).devices@[i as int].end == old(self).devices@[i as int].end,
            same_kind(old(self).devices@[i as int].dev, final(self).devices@[i as int].dev),
            dev_wf(old(self).devices@[i as int].dev) ==> dev_wf(final(self).devices@[i as int].dev),
            !(old(self).devices@[i as int].dev is Htif) ==> r != Err::<u16, Interrupt>(Interrupt::Halt),
            old(self).devices@[i as int].dev is Rom ==> r == ram_read_half(rom_of(old(self).devices@[i as int].dev), local)
                && rom_of(final(self).devices@[i as int].dev) == rom_of(old(self).devices@[i as int].dev),
            old(self).devices@[i as int].dev is Ram ==> r == ram_read_half(ram_of(old(self).devices@[i as int].dev), local)
                && ram_of(final(self).devices@[i as int].dev) == ram_of(old(self).devices@[i as int].dev),
    {
        match &mut self.devices[i].dev {
            Dev::Ram(d) => d.read_half(local),
            Dev::Rom(d) => d.read_half(local),
            Dev::Htif(d) => d.read_half(local),
            Dev::Rtc(d) => d.read_half(local),
            Dev::Clint(d) => d.read_half(local),
            Dev::Plic(d) => d.read_half(local),
            Dev::Uart(d) => d.read_half(local),
            Dev::Blk(d) => d.read_half(local),
        }
    }
    /// A half write to the device of mapping `i` at offset `local`.
    fn access_write_half(&mut self, i: usize, local: usize, val: u16) -> (r: Result<(), Interrupt>)
        requires
            i < old(self).devices@.len(),
        ensures
            final(self).devices@.len() == old(self).devices@.len(),
            forall|j: int| 0 <= j < old(self).devices@.len() && j != i ==> final(self).devices@[j] == old(self).devices@[j],
            final(self).devices@[i as int].start == old(self).devices@[i as int].start,
            final(self).devices@[i as int].end == old(self).devices@[i as int].end,
            same_kind(old(self).devices@[i as int].dev, final(self).devices@[i as int].dev),
            dev_wf(old(self).devices@[i as int].dev) ==> dev_wf(final(self).devices@[i as int].dev),
            !(old(self).devices@[i as int].dev is Htif) ==> r != Err::<(), Interrupt>(Interrupt::Halt),
            old(self).devices@[i as int].dev is Blk ==> blk_of(final(self).devices@[i as int].dev).disk@ == blk_of(old(self).devices@[i as int].dev).disk@
                && blk_of(final(self).devices@[i as int].dev).irq == blk_of(old(self).devices@[i as int].dev).irq,
            old(self).devices@[i as int].dev is Ram ==> ram_of(final(self).devices@[i as int].dev) == ram_write_half(ram_of(old(self).devices@[i as int].dev), local, val)
                && (r is Ok <==> fits(local, 2, ram_of(old(self).devices@[i as int].dev).len()))
                && (r is Err ==> r == Err::<(), Interrupt>(Interrupt::MemoryFault(local))),
    {
        match &mut self.devices[i].dev {
            Dev::Ram(d) => d.write_half(local, val),
            Dev::Rom(d) => d.write_half(local, val),
            Dev::Htif(d) => d.write_half(local, val),
            Dev::Rtc(d) => d.write_half(local, val),
            Dev::Clint(d) => d.write_half(local, val),
            Dev::Plic(d) => d.write_half(local, val),
            Dev::Uart(d) => d.write_half(local, val),
            Dev::Blk(d) => d.write_half(local, val),
        }
    }
    /// A byte read from the device of mapping `i` at offset `local`.
    fn access_read_byte(&mut self, i: usize, local: usize) -> (r: Result<u8, Interrupt>)
        requires
            i < old(self).devices@.len(),
        ensures
            final(self).devices@.len() == old(self).devices@.len(),
            forall|j: int| 0 <= j < old(self).devices@.len() && j != i ==> final(self).devices@[j] == old(self).devices@[j],
            final(self).devices@[i as int].start == old(self).devices@[i as int].start,
            final(self).devices@[i as int].end == old(self).devices@[i as int].end,
            same_kind(old(self).devices@[i as int].dev, final(self).devices@[i as int].dev),
            dev_wf(old(self).devices@[i as int].dev) ==> dev_wf(final(self).devices@[i as int].dev),
            !(old(self).devices@[i as int].dev is Htif) ==> r != Err::<u8, Interrupt>(Interrupt::Halt),
            old(self).devices@[i as int].dev is Rom ==> r == ram_read_byte(rom_of(old(self).devices@[i as int].dev), local)
                && rom_of(final(self).devices@[i as int].dev) == rom_of(old(self).devices@[i as int].dev),
            old(self).devices@[i as int].dev is Ram ==> r == ram_read_byte(ram_of(old(self).devices@[i as int].dev), local)
                && ram_of(final(self).devices@[i as int].dev) == ram_of(old(self).devices@[i as int].dev),
    {
        match &mut self.devices[i].dev {
            Dev::Ram(d) => d.read_byte(local),
            Dev::Rom(d) => d.read_byte(local),
            Dev::Htif(d) => d.read_byte(local),
            Dev::Rtc(d) => d.read_byte(local),
            Dev::Clint(d) => d.read_byte(local),
            Dev::Plic(d) => d.read_byte(local),
            Dev::Uart(d) => d.read_byte(local),
            Dev::Blk(d) => d.read_byte(local),
        }
    }
    /// A byte write to the device of mapping `i` at offset `local`.
    fn access_write_byte(&mut self, i: usize, local: usize, val: u8) -> (r: Result<(), Interrupt>)
        requires
            i < old(self).devices@.len(),
        ensures
            final(self).devices@.len() == old(self).devices@.len(),
            forall|j: int| 0 <= j < old(self).devices@.len() && j != i ==> final(self).devices@[j] == old(self).devices@[j],
            final(self).devices@[i as int].start == old(self).devices@[i as int].start,
            final(self).devices@[i as int].end == old(self).devices@[i as int].end,
            same_kind(old(self).devices@[i as int].dev, final(self).devices@[i as int].dev),
            dev_wf(old(self).devices@[i as int].dev) ==> dev_wf(final(self).devices@[i as int].dev),
            !(old(self).devices@[i as int].dev is Htif) ==> r != Err::<(), Interrupt>(Interrupt::Halt),
            old(self).devices@[i as int].dev is Blk ==> blk_of(final(self).devices@[i as int].dev).disk@ == blk_of(old(self).devices@[i as int].dev).disk@
                && blk_of(final(self).devices@[i as int].dev).irq == blk_of(old(self).devices@[i as int].dev).irq,
            old(self).devices@[i as int].dev is Ram ==> ram_of(final(self).devices@[i as int].dev) == ram_write_byte(ram_of(old(self).devices@[i as int].dev), local, val)
                && (r is Ok <==> fits(local, 1, ram_of(old(self).devices@[i as int].dev).len()))
                && (r is Err ==> r == Err::<(), Interrupt>(Interrupt::MemoryFault(local))),
    {
        match &mut self.devices[i].dev {
            Dev::Ram(d) => d.write_byte(local, val),
            Dev::Rom(d) => d.write_byte(local, val),
            Dev::Htif(d) => d.write_byte(local, val),
            Dev::Rtc(d) => d.write_byte(local, val),
            Dev::Clint(d) => d.write_byte(local, val),
            Dev::Plic(d) => d.write_byte(local, val),
            Dev::Uart(d) => d.write_byte(local, val),
            Dev::Blk(d) => d.write_byte(local, val),
        }
    }
    /// A double read at bus address `addr`, served by the device that maps it.
    fn route_read_double(&mut self, addr: usize) -> (r: Result<u64, Interrupt>)
        ensures
            final(self).devices@.len() == old(self).devices@.len(),
            forall|j: int| 0 <= j < old(self).devices@.len() ==> final(self).devices@[j].start == old(self).devices@[j].start && final(self).devices@[j].end == old(self).devices@[j].end && same_kind(old(self).devices@[j].dev, final(self).devices@[j].dev),
            old(self).wf() ==> final(self).wf(),
            owner(old(self).devices@, addr) is None ==> r == Err::<u64, Interrupt>(Interrupt::Unmapped(addr)) && *final(self) == *old(self),
            no_htif(old(self).devices@) ==> r != Err::<u64, Interrupt>(Interrupt::Halt),
            owner(old(self).devices@, addr) is Some ==> ({
                let i = owner(old(self).devices@, addr)->0;
                forall|j: int| 0 <= j < old(self).devices@.len() && j != i ==> final(self).devices@[j] == old(self).devices@[j]
            }),
            owner(old(self).devices@, addr) is Some && old(self).devices@[owner(old(self).devices@, addr)->0].dev is Ram ==> ({
                let i = owner(old(self).devices@, addr)->0;
                let m = old(self).devices@[i];
                r == ram_read_double(ram_of(m.dev), (addr - m.start) as usize)
                    && ram_of(final(self).devices@[i].dev) == ram_of(m.dev)
            }),
            owner(old(self).devices@, addr) is Some && old(self).devices@[owner(old(self).devices@, addr)->0].dev is Rom ==> ({
                let i = owner(old(self).devices@, addr)->0;
                let m = old(self).devices@[i];
                r == ram_read_double(rom_of(m.dev), (addr - m.start) as usize)
                    && rom_of(final(self).devices@[i].dev) == rom_of(m.dev)
            }),
    {
        match self.find(addr) {
            None => Err(Interrupt::Unmapped(addr)),
            Some(i) => {
                let local = addr - self.devices[i].start;
                self.access_read_double(i, local)
            },
        }
    }
    /// A double write at bus address `addr`, served by the device that maps it.
    fn route_write_double(&mut self, addr: usize, val: u64) -> (r: Result<(), Interrupt>)
        ensures
            final(self).devices@.len() == old(self).devices@.len(),
            forall|j: int| 0 <= j < old(self).devices@.len() ==> final(self).devices@[j].start == old(self).devices@[j].start && final(self).devices@[j].end == old(self).devices@[j].end && same_kind(old(self).devices@[j].dev, final(self).devices@[j].dev),
            old(self).wf() ==> final(self).wf(),
            owner(old(self).devices@, addr) is None ==> r == Err::<(), Interrupt>(Interrupt::Unmapped(addr)) && *final(self) == *old(self),
            no_htif(old(self).devices@) ==> r != Err::<(), Interrupt>(Interrupt::Halt),
            owner(old(self).devices@, addr) is Some ==> ({
                let i = owner(old(self).devices@, addr)->0;
                forall|j: int| 0 <= j < old(self).devices@.len() && j != i ==> final(self).devices@[j] == old(self).devices@[j]
            }),
            owner(old(self).devices@, addr) is Some && old(self).devices@[owner(old(self).devices@, addr)->0].dev is Ram ==> ({
                let i = owner(old(self).devices@, addr)->0;
                let m = old(self).devices@[i];
                ram_of(final(self).devices@[i].dev) == ram_write_double(ram_of(m.dev), (addr - m.start) as usize, val)
                    && (r is Ok <==> fits((addr - m.start) as usize, 8, ram_of(m.dev).len()))
                    && (r is Err ==> r == Err::<(), Interrupt>(Interrupt::MemoryFault((addr - m.start) as usize)))
            }),
            owner(old(self).devices@, addr) is Some && old(self).devices@[owner(old(self).devices@, addr)->0].dev is Blk ==> ({
                let i = owner(old(self).devices@, addr)->0;
                blk_of(final(self).devices@[i].dev).disk@ == blk_of(old(self).devices@[i].dev).disk@
                    && blk_of(final(self).devices@[i].dev).irq == blk_of(old(self).devices@[i].dev).irq
            }),
    {
        match self.find(addr) {
            None => Err(Interrupt::Unmapped(addr)),
            Some(i) => {
                let local = addr - self.devices[i].start;
                self.access_write_double(i, local, val)
            },
        }
    }
    /// A word read at bus address `addr`, served by the device that maps it.
    fn route_read_word(&mut self, addr: usize) -> (r: Result<u32, Interrupt>)
        ensures
            final(self).devices@.len() == old(self).devices@.len(),
            forall|j: int| 0 <= j < old(self).devices@.len() ==> final(self).devices@[j].start == old(self).devices@[j].start && final(self).devices@[j].end == old(self).devices@[j].end && same_kind(old(self).devices@[j].dev, final(self).devices@[j].dev),
            old(self).wf() ==> final(self).wf(),
            owner(old(self).devices@, addr) is None ==> r == Err::<u32, Interrupt>(Interrupt::Unmapped(addr)) && *final(self) == *old(self),
            no_htif(old(self).devices@) ==> r != Err::<u32, Interrupt>(Interrupt::Halt),
            owner(old(self).devices@, addr) is Some ==> ({
                let i = owner(old(self).devices@, addr)->0;
                forall|j: int| 0 <= j < old(self).devices@.len() && j != i ==> final(self).devices@[j] == old(self).devices@[j]
            }),
            owner(old(self).devices@, addr) is Some && old(self).devices@[owner(old(self).devices@, addr)->0].dev is Ram ==> ({
                let i = owner(old(self).devices@, addr)->0;
                let m = old(self).devices@[i];
                r == ram_read_word(ram_of(m.dev), (addr - m.start) as usize)
                    && ram_of(final(self).devices@[i].dev) == ram_of(m.dev)
            }),
            owner(old(self).devices@, addr) is Some && old(self).devices@[owner(old(self).devices@, addr)->0].dev is Rom ==> ({
                let i = owner(old(self).devices@, addr)->0;
                let m = old(self).devices@[i];
                r == ram_read_word(rom_of(m.dev), (addr - m.start) as usize)
                    && rom_of(final(self).devices@[i].dev) == rom_of(m.dev)
            }),
    {
        match self.find(addr) {
            None => Err(Interrupt::Unmapped(addr)),
            Some(i) => {
                let local = addr - self.devices[i].start;
                self.access_read_word(i, local)
            },
        }
    }
    /// A word write at bus address `addr`, served by the device that maps it.
    fn route_write_word(&mut self, addr: usize, val: u32) -> (r: Result<(), Interrupt>)
        ensures
            final(self).devices@.len() == old(self).devices@.len(),
            forall|j: int| 0 <= j < old(self).devices@.len() ==> final(self).devices@[j].start == old(self).devices@[j].start && final(self).devices@[j].end == old(self).devices@[j].end && same_kind(old(self).devices@[j].dev, final(self).devices@[j].dev),
            old(self).wf() ==> final(self).wf(),
            owner(old(self).devices@, addr) is None ==> r == Err::<(), Interrupt>(Interrupt::Unmapped(addr)) && *final(self) == *old(self),
            no_htif(old(self).devices@) ==> r != Err::<(), Interrupt>(Interrupt::Halt),
            owner(old(self).devices@, addr) is Some ==> ({
                let i = owner(old(self).devices@, addr)->0;
                forall|j: int| 0 <= j < old(self).devices@.len() && j != i ==> final(self).devices@[j] == old(self).devices@[j]
            }),
            owner(old(self).devices@, addr) is Some && old(self).devices@[owner(old(self).devices@, addr)->0].dev is Ram ==> ({
                let i = owner(old(self).devices@, addr)->0;
                let m = old(self).devices@[i];
                ram_of(final(self).devices@[i].dev) == ram_write_word(ram_of(m.dev), (addr - m.start) as usize, val)
                    && (r is Ok <==> fits((addr - m.start) as usize, 4, ram_of(m.dev).len()))
                    && (r is Err ==> r == Err::<(), Interrupt>(Interrupt::MemoryFault((addr - m.start) as usize)))
            }),
            owner(old(self).devices@, addr) is Some && old(self).devices@[owner(old(self).devices@, addr)->0].dev is Blk ==> ({
                let i = owner(old(self).devices@, addr)->0;
                blk_of(final(self).devices@[i].dev).disk@ == blk_of(old(self).devices@[i].dev).disk@
                    && blk_of(final(self).devices@[i].dev).irq == blk_of(old(self).devices@[i].dev).irq
            }),
            owner(old(self).devices@, addr) is Some && old(self).devices@[owner(old(self).devices@, addr)->0].dev is Blk
                && (addr - old(self).devices@[owner(old(self).devices@, addr)->0].start) == REG_QUEUE_NOTIFY
                && dev_wf(old(self).devices@[owner(old(self).devices@, addr)->0].dev) ==> ({
                let i = owner(old(self).devices@, addr)->0;
                blk_of(final(self).devices@[i].dev).notify == Some(val)
                    && blk_of(final(self).devices@[i].dev).queues@ == blk_of(old(self).devices@[i].dev).queues@
                    && dev_wf(final(self).devices@[i].dev)
            }),
    {
        match self.find(addr) {
            None => Err(Interrupt::Unmapped(addr)),
            Some(i) => {
                let local = addr - self.devices[i].start;
                self.access_write_word(i, local, val)
            },
        }
    }
    /// A half read at bus address `addr`, served by the device that maps it.
    fn route_read_half(&mut self, addr: usize) -> (r: Result<u16, Interrupt>)
        ensures
            final(self).devices@.len() == old(self).devices@.len(),
            forall|j: int| 0 <= j < old(self).devices@.len() ==> final(self).devices@[j].start == old(self).devices@[j].start && final(self).devices@[j].end == old(self).devices@[j].end && same_kind(old(self).devices@[j].dev, final(self).devices@[j].dev),
            old(self).wf() ==> final(self).wf(),
            owner(old(self).devices@, addr) is None ==> r == Err::<u16, Interrupt>(Interrupt::Unmapped(addr)) && *final(self) == *old(self),
            no_htif(old(self).devices@) ==> r != Err::<u16, Interrupt>(Interrupt::Halt),
            owner(old(self).devices@, addr) is Some ==> ({
                let i = owner(old(self).devices@, addr)->0;
                forall|j: int| 0 <= j < old(self).devices@.len() && j != i ==> final(self).devices@[j] == old(self).devices@[j]
            }),
            owner(old(self).devices@, addr) is Some && old(self).devices@[owner(old(self).devices@, addr)->0].dev is Ram ==> ({
                let i = owner(old(self).devices@, addr)->0;
                let m = old(self).devices@[i];
                r == ram_read_half(ram_of(m.dev), (addr - m.start) as usize)
                    && ram_of(final(self).devices@[i].dev) == ram_of(m.dev)
            }),
            owner(old(self).devices@, addr) is Some && old(self).devices@[owner(old(self).devices@, addr)->0].dev is Rom ==> ({
                let i = owner(old(self).devices@, addr)->0;
                let m = old(self).devices@[i];
                r == ram_read_half(rom_of(m.dev), (addr - m.start) as usize)
                    && rom_of(final(self).devices@[i].dev) == rom_of(m.dev)
            }),
    {
        match self.find(addr) {
            None => Err(Interrupt::Unmapped(addr)),
            Some(i) => {
                let local = addr - self.devices[i].start;
                self.access_read_half(i, local)
            },
        }
    }
    /// A half write at bus address `addr`, served by the device that maps it.
    fn route_write_half(&mut self, addr: usize, val: u16) -> (r: Result<(), Interrupt>)
        ensures
            final(self).devices@.len() == old(self).devices@.len(),
            forall|j: int| 0 <= j < old(self).devices@.len() ==> final(self).devices@[j].start == old(self).devices@[j].start && final(self).devices@[j].end == old(self).devices@[j].end && same_kind(old(self).devices@[j].dev, final(self).devices@[j].dev),
            old(self).wf() ==> final(self).wf(),
            owner(old(self).devices@, addr) is None ==> r == Err::<(), Interrupt>(Interrupt::Unmapped(addr)) && *final(self) == *old(self),
            no_htif(old(self).devices@) ==> r != Err::<(), Interrupt>(Interrupt::Halt),
            owner(old(self).devices@, addr) is Some ==> ({
                let i = owner(old(self).devices@, addr)->0;
                forall|j: int| 0 <= j < old(self).devices@.len() && j != i ==> final(self).devices@[j] == old(self).devices@[j]
            }),
            owner(old(self).devices@, addr) is Some && old(self).devices@[owner(old(self).devices@, addr)->0].dev is Ram ==> ({
                let i = owner(old(self).devices@, addr)->0;
                let m = old(self).devices@[i];
                ram_of(final(self).devices@[i].dev) == ram_write_half(ram_of(m.dev), (addr - m.start) as usize, val)
                    && (r is Ok <==> fits((addr - m.start) as usize, 2, ram_of(m.dev).len()))
                    && (r is Err ==> r == Err::<(), Interrupt>(Interrupt::MemoryFault((addr - m.start) as usize)))
            }),
            owner(old(self).devices@, addr) is Some && old(self).devices@[owner(old(self).devices@, addr)->0].dev is Blk ==> ({
                let i = owner(old(self).devices@, addr)->0;
                blk_of(final(self).devices@[i].dev).disk@ == blk_of(old(self).devices@[i].dev).disk@
                    && blk_of(final(self).devices@[i].dev).irq == blk_of(old(self).devices@[i].dev).irq
            }),
    {
        match self.find(addr) {
            None => Err(Interrupt::Unmapped(addr)),
            Some(i) => {
                let local = addr - self.devices[i].start;
                self.access_write_half(i, local, val)
            },
        }
    }
    /// A byte read at bus address `addr`, served by the device that maps it.
    fn route_read_byte(&mut self, addr: usize) -> (r: Result<u8, Interrupt>)
        ensures
            final(self).devices@.len() == old(self).devices@.len(),
            forall|j: int| 0 <= j < old(self).devices@.len() ==> final(self).devices@[j].start == old(self).devices@[j].start && final(self).devices@[j].end == old(self).devices@[j].end && same_kind(old(self).devices@[j].dev, final(self).devices@[j].dev),
            old(self).wf() ==> final(self).wf(),
            owner(old(self).devices@, addr) is None ==> r == Err::<u8, Interrupt>(Interrupt::Unmapped(addr)) && *final(self) == *old(self),
            no_htif(old(self).devices@) ==> r != Err::<u8, Interrupt>(Interrupt::Halt),
            owner(old(self).devices@, addr) is Some ==> ({
                let i = owner(old(self).devices@, addr)->0;
                forall|j: int| 0 <= j < old(self).devices@.len() && j != i ==> final(self).devices@[j] == old(self).devices@[j]
            }),
            owner(old(self).devices@, addr) is Some && old(self).devices@[owner(old(self).devices@, addr)->0].dev is Ram ==> ({
                let i = owner(old(self).devices@, addr)->0;
                let m = old(self).devices@[i];
                r == ram_read_byte(ram_of(m.dev), (addr - m.start) as usize)
                    && ram_of(final(self).devices@[i].dev) == ram_of(m.dev)
            }),
            owner(old(self).devices@, addr) is Some && old(self).devices@[owner(old(self).devices@, addr)->0].dev is Rom ==> ({
                let i = owner(old(self).devices@, addr)->0;
                let m = old(self).devices@[i];
                r == ram_read_byte(rom_of(m.dev), (addr - m.start) as usize)
                    && rom_of(final(self).devices@[i].dev) == rom_of(m.dev)
            }),
    {
        match self.find(addr) {
            None => Err(Interrupt::Unmapped(addr)),
            Some(i) => {
                let local = addr - self.devices[i].start;
                self.access_read_byte(i, local)
            },
        }
    }
    /// A byte write at bus address `addr`, served by the device that maps it.
    fn route_write_byte(&mut self, addr: usize, val: u8) -> (r: Result<(), Interrupt>)
        ensures
            final(self).devices@.len() == old(self).devices@.len(),
            forall|j: int| 0 <= j < old(self).devices@.len() ==> final(self).devices@[j].start == old(self).devices@[j].start && final(self).devices@[j].end == old(self).devices@[j].end && same_kind(old(self).devices@[j].dev, final(self).devices@[j].dev),
            old(self).wf() ==> final(self).wf(),
            owner(old(self).devices@, addr) is None ==> r == Err::<(), Interrupt>(Interrupt::Unmapped(addr)) && *final(self) == *old(self),
            no_htif(old(self).devices@) ==> r != Err::<(), Interrupt>(Interrupt::Halt),
            owner(old(self).devices@, addr) is Some ==> ({
                let i = owner(old(self).devices@, addr)->0;
                forall|j: int| 0 <= j < old(self).devices@.len() && j != i ==> final(self).devices@[j] == old(self).devices@[j]
            }),
            owner(old(self).devices@, addr) is Some && old(self).devices@[owner(old(self).devices@, addr)->0].dev is Ram ==> ({
                let i = owner(old(self).devices@, addr)->0;
                let m = old(self).devices@[i];
                ram_of(final(self).devices@[i].dev) == ram_write_byte(ram_of(m.dev), (addr - m.start) as usize, val)
                    && (r is Ok <==> fits((addr - m.start) as usize, 1, ram_of(m.dev).len()))
                    && (r is Err ==> r == Err::<(), Interrupt>(Interrupt::MemoryFault((addr - m.start) as usize)))
            }),
            owner(old(self).devices@, addr) is Some && old(self).devices@[owner(old(self).devices@, addr)->0].dev is Blk ==> ({
                let i = owner(old(self).devices@, addr)->0;
                blk_of(final(self).devices@[i].dev).disk@ == blk_of(old(self).devices@[i].dev).disk@
                    && blk_of(final(self).devices@[i].dev).irq == blk_of(old(self).devices@[i].dev).irq
            }),
    {
        match self.find(addr) {
            None => Err(Interrupt::Unmapped(addr)),
            Some(i) => {
                let local = addr - self.devices[i].start;
                self.access_write_byte(i, local, val)
            },
        }
    }
    /// Where a CLINT timer register is addressed, the bus address of the RTC
    /// register it stands for.
    fn clint_forward(&self, addr: usize) -> (r: Option<usize>)
        ensures
            (owner(self.devices@, addr) is None || !(self.devices@[owner(self.devices@, addr)->0].dev is Clint)) ==> r is None,
    {
        match self.find(addr) {
            None => None,
            Some(i) => match &self.devices[i].dev {
                Dev::Clint(c) => c.forward(addr - self.devices[i].start),
                _ => None,
            },
        }
    }

    /// Whether the CLINT raises the software interrupt of hart 0.
    pub fn software_pending(&self) -> (r: bool)
        ensures
            r == msip_from(self.devices@, 0),
    {
        let mut j: usize = 0;
        while j < self.devices.len()
            invariant
                j <= self.devices@.len(),
                msip_from(self.devices@, 0) == msip_from(self.devices@, j as int),
            decreases self.devices@.len() - j,
        {
            if let Dev::Clint(c) = &self.devices[j].dev {
                return c.msip;
            }
            j = j + 1;
        }
        false
    }

    /// Whether the PLIC has a source that machine mode of hart 0 may claim.
    pub fn external_pending(&self) -> (r: bool)
        requires
            self.wf(),
        ensures
            r == external_from(self.devices@, 0),
    {
        let mut j: usize = 0;
        while j < self.devices.len()
            invariant
                j <= self.devices@.len(),
                self.wf(),
                external_from(self.devices@, 0) == external_from(self.devices@, j as int),
            decreases self.devices@.len() - j,
        {
            if let Dev::Plic(p) = &self.devices[j].dev {
                proof { self.lemma_wf_at(j as int); }
                return p.has_claimable(0);
            }
            j = j + 1;
        }
        false
    }

    /// Whether the RTC deadline has passed.
    pub fn timer_pending(&self) -> (r: bool)
        ensures
            r ==> exists|j: int| 0 <= j < self.devices@.len() && self.devices@[j].dev is Rtc,
    {
        let mut j: usize = 0;
        while j < self.devices.len()
            invariant
                j <= self.devices@.len(),
            decreases self.devices@.len() - j,
        {
            if let Dev::Rtc(t) = &self.devices[j].dev {
                return t.timer_pending();
            }
            j = j + 1;
        }
        false
    }

    /// Latches `source` pending at the first PLIC on the bus.
    fn raise(&mut self, source: usize)
        ensures
            same_layout(old(self).devices@, final(self).devices@),
            old(self).wf() ==> final(self).wf(),
            forall|j: int|
                0 <= j < old(self).devices@.len() && !(old(self).devices@[j].dev is Plic)
                    ==> final(self).devices@[j] == old(self).devices@[j],
            ({
                let k = plic_from(old(self).devices@, 0)->0;
                plic_from(old(self).devices@, 0) is Some && plic_of(old(self).devices@[k].dev).wf()
                    && source < crate::plic::NUM_SOURCES ==> plic_of(final(self).devices@[k].dev).is_pending(
                    source as int,
                )
            }),
    {
        let mut j: usize = 0;
        while j < self.devices.len()
            invariant
                j <= self.devices@.len(),
                self.devices@ == old(self).devices@,
                plic_from(old(self).devices@, 0) == plic_from(old(self).devices@, j as int),
            decreases self.devices@.len() - j,
        {
            if let Dev::Plic(p) = &self.devices[j].dev {
                if p.priority.len() == crate::plic::NUM_SOURCES && p.pending.len()
                    == crate::plic::BITMAP_WORDS && p.enable.len() == crate::plic::NUM_CONTEXTS
                    * crate::plic::BITMAP_WORDS && p.threshold.len() == crate::plic::NUM_CONTEXTS
                    && p.claimed.len() == crate::plic::NUM_CONTEXTS {
                    match &mut self.devices[j].dev {
                        Dev::Plic(p) => p.fire_interrupt(source),
                        _ => {},
                    }
                }
                return;
            }
            j = j + 1;
        }
    }

    /// The `n` bytes of guest memory from `addr` on; `Err` at the first byte
    /// that cannot be read.
    fn read_bytes(&mut self, addr: usize, n: usize) -> (r: Result<Vec<u8>, Interrupt>)
        ensures
            same_layout(old(self).devices@, final(self).devices@),
            old(self).wf() ==> final(self).wf(),
            r is Ok ==> r->Ok_0@.len() == n,
            ram_range(old(self).devices@, addr, n as nat) ==> r is Ok && r->Ok_0@ == ram_bytes(
                old(self).devices@,
                addr,
                n as nat,
            ) && ram_same(old(self).devices@, final(self).devices@),
    {
        let mut out: Vec<u8> = Vec::new();
        let mut i: usize = 0;
        while i < n
            invariant
                i <= n,
                out@.len() == i,
                same_layout(old(self).devices@, self.devices@),
                old(self).wf() ==> self.wf(),
                ram_range(old(self).devices@, addr, n as nat) ==> ram_same(old(self).devices@, self.devices@)
                    && forall|k: int| 0 <= k < i ==> out@[k] == ram_byte_at(old(self).devices@, (addr + k) as usize)->0,
            decreases n - i,
        {
            let a = addr.wrapping_add(i);
            let ghost before = self.devices@;
            proof {
                if ram_range(old(self).devices@, addr, n as nat) {
                    assert(a == (addr + i) as usize);
                    assert(ram_byte_at(old(self).devices@, (addr + i) as usize) is Some);
                    lemma_ram_same_reads(old(self).devices@, before, a, 0);
                    lemma_owner_from_bounds(before, a, 0);
                }
            }
            let b = self.read_byte(a)?;
            proof {
                if ram_range(old(self).devices@, addr, n as nat) {
                    assert(ram_same(before, self.devices@));
                    lemma_ram_same_trans(old(self).devices@, before, self.devices@);
                }
            }
            out.push(b);
            i = i + 1;
        }
        proof {
            if ram_range(old(self).devices@, addr, n as nat) {
                assert(out@ =~= ram_bytes(old(self).devices@, addr, n as nat));
            }
        }
        Ok(out)
    }

    /// The descriptor `idx` of the table at guest address `table`.
    fn read_desc(&mut self, table: u64, idx: u16) -> (r: Option<Desc>)
        ensures
            same_layout(old(self).devices@, final(self).devices@),
            old(self).wf() ==> final(self).wf(),
            desc_spec(old(self).devices@, table, idx) is Some ==> r == desc_spec(old(self).devices@, table, idx)
                && ram_same(old(self).devices@, final(self).devices@),
    {
        proof {
            reveal(desc_spec);
        }
        let base = guest_addr(table).wrapping_add(16 * idx as usize);
        let bs = match self.read_bytes(base, 16) {
            Ok(v) => v,
            Err(_) => return None,
        };
        let addr = (bs[0] as u64) | ((bs[1] as u64) << 8u64) | ((bs[2] as u64) << 16u64) | ((
        bs[3] as u64) << 24u64) | ((bs[4] as u64) << 32u64) | ((bs[5] as u64) << 40u64) | ((
        bs[6] as u64) << 48u64) | ((bs[7] as u64) << 56u64);
        let len = (bs[8] as u32) | ((bs[9] as u32) << 8u32) | ((bs[10] as u32) << 16u32) | ((
        bs[11] as u32) << 24u32);
        let flags = (bs[12] as u16) | ((bs[13] as u16) << 8u16);
        let next = (bs[14] as u16) | ((bs[15] as u16) << 8u16);
        Some(Desc { addr, len, flags, next })
    }

    /// Moves the data of one buffer of a request between the disk image of
    /// mapping `i`, at byte `offset`, and guest memory: for IN from the disk
    /// into the buffer, giving the bytes written into it; for OUT from the
    /// buffer onto the disk, giving 0. `None` where either side is out of
    /// reach.
    fn transfer_one(&mut self, i: usize, d: Desc, typ: u32, offset: u64) -> (r: Option<u32>)
        requires
            i < old(self).devices@.len(),
            old(self).devices@[i as int].dev is Blk,
            dev_wf(old(self).devices@[i as int].dev),
        ensures
            same_layout(old(self).devices@, final(self).devices@),
            old(self).wf() ==> final(self).wf(),
            ({
                let buf = bus_addr(d.addr);
                let disk = blk_of(old(self).devices@[i as int].dev).disk@;
                &&& typ == REQ_IN && offset + d.len <= disk.len() && ram_range(old(self).devices@, buf, d.len as nat)
                    ==> r == Some(d.len) && blk_of(final(self).devices@[i as int].dev).disk@ == disk && (forall|k: int|
                    0 <= k < d.len ==> #[trigger] ram_byte_at(final(self).devices@, (buf + k) as usize) == Some(
                        disk[offset + k],
                    )) && (forall|b: usize|
                    !(buf <= b < buf + d.len) ==> #[trigger] ram_byte_at(final(self).devices@, b) == ram_byte_at(
                        old(self).devices@,
                        b,
                    ))
                &&& typ == REQ_OUT && offset + d.len <= disk.len() && ram_range(old(self).devices@, buf, d.len as nat)
                    ==> r == Some(0u32) && blk_of(final(self).devices@[i as int].dev).disk@ == disk.subrange(
                    0,
                    offset as int,
                ) + ram_bytes(old(self).devices@, buf, d.len as nat) + disk.subrange(offset + d.len, disk.len() as int)
                    && (forall|b: usize| #[trigger] ram_byte_at(final(self).devices@, b) == ram_byte_at(old(self).devices@, b))
            }),
    {
        let buf = guest_addr(d.addr);
        if typ == REQ_IN {
            let data = match &self.devices[i].dev {
                Dev::Blk(b) => b.load(offset, d.len),
                _ => None,
            };
            match data {
                Some(v) => {
                    let res = self.write(buf, v.as_slice());
                    match res {
                        Ok(()) => Some(d.len),
                        Err(_) => None,
                    }
                },
                None => None,
            }
        } else {
            let ghost d0 = self.devices@;
            let data = match self.read_bytes(buf, d.len as usize) {
                Ok(v) => v,
                Err(_) => return None,
            };
            let ghost mid = self.devices@;
            proof {
                if typ == REQ_OUT && ram_range(d0, buf, d.len as nat) {
                    assert(mid[i as int] == d0[i as int]);
                }
                assert(same_kind(d0[i as int].dev, mid[i as int].dev));
            }
            if !matches!(self.devices[i].dev, Dev::Blk(_)) {
                return None;
            }
            let wf_i = match &self.devices[i].dev {
                Dev::Blk(b) => b.queues.len() == MAX_QUEUES,
                _ => false,
            };
            if !wf_i {
                return None;
            }
            let ok = match &mut self.devices[i].dev {
                Dev::Blk(b) => b.store(offset, &data),
                _ => false,
            };
            proof {
                lemma_same_layout_trans(old(self).devices@, mid, self.devices@);
                if old(self).wf() {
                    assert forall|j: int| 0 <= j < self.devices@.len() implies #[trigger] dev_wf(self.devices@[j].dev) by {
                        assert(dev_wf(mid[j].dev));
                    }
                }
                assert forall|b: usize| #[trigger] ram_byte_at(self.devices@, b) == ram_byte_at(mid, b) by {
                    lemma_non_ram_change(mid, self.devices@, i as int, b);
                }
                if typ == REQ_OUT && ram_range(d0, buf, d.len as nat) {
                    assert forall|b: usize| #[trigger] ram_byte_at(mid, b) == ram_byte_at(d0, b) by {
                        lemma_ram_same_reads(d0, mid, b, 0);
                    }
                }
            }
            if ok {
                Some(0)
            } else {
                None
            }
        }
    }

    /// Moves the data of a request between the disk image of mapping `i` and
    /// the data buffers `chain[1..n-1]`; gives the status byte and the bytes
    /// written into the driver's buffers.
    fn transfer(&mut self, i: usize, chain: &Vec<Desc>, typ: u32, sector: u64) -> (r: (u8, u32))
        requires
            i < old(self).devices@.len(),
            old(self).devices@[i as int].dev is Blk,
            chain@.len() >= 2,
        ensures
            same_layout(old(self).devices@, final(self).devices@),
            old(self).wf() ==> final(self).wf(),
            typ != REQ_IN && typ != REQ_OUT ==> r.0 == BLK_S_UNSUPP && *final(self) == *old(self),
            ({
                let d = chain@[1];
                let buf = bus_addr(d.addr);
                let disk = blk_of(old(self).devices@[i as int].dev).disk@;
                let offset = sector * 512;
                &&& dev_wf(old(self).devices@[i as int].dev) && chain@.len() == 3 && typ == REQ_IN && offset + d.len <= disk.len() && ram_range(
                    old(self).devices@,
                    buf,
                    d.len as nat,
                ) ==> r == (BLK_S_OK, d.len) && blk_of(final(self).devices@[i as int].dev).disk@ == disk && (forall|k: int|
                    0 <= k < d.len ==> #[trigger] ram_byte_at(final(self).devices@, (buf + k) as usize) == Some(
                        disk[offset + k],
                    )) && (forall|b: usize|
                    !(buf <= b < buf + d.len) ==> #[trigger] ram_byte_at(final(self).devices@, b) == ram_byte_at(
                        old(self).devices@,
                        b,
                    ))
                &&& dev_wf(old(self).devices@[i as int].dev) && chain@.len() == 3 && typ == REQ_OUT && offset + d.len <= disk.len() && ram_range(
                    old(self).devices@,
                    buf,
                    d.len as nat,
                ) ==> r == (BLK_S_OK, 0u32) && blk_of(final(self).devices@[i as int].dev).disk@ == disk.subrange(
                    0,
                    offset,
                ) + ram_bytes(old(self).devices@, buf, d.len as nat) + disk.subrange(offset + d.len, disk.len() as int)
                    && (forall|b: usize| #[trigger] ram_byte_at(final(self).devices@, b) == ram_byte_at(old(self).devices@, b))
            }),
    {
        if typ != REQ_IN && typ != REQ_OUT {
            return (BLK_S_UNSUPP, 0);
        }
        proof {
            let disk = blk_of(old(self).devices@[i as int].dev).disk@;
            assert(blk_of(old(self).devices@[i as int].dev).disk.len() == disk.len());
            assert(usize::MAX <= u64::MAX);
        }
        let mut offset: u64 = match sector.checked_mul(512) {
            Some(o) => o,
            None => return (BLK_S_IOERR, 0),
        };
        let mut written: u32 = 0;
        let mut k: usize = 1;
        while k < chain.len() - 1
            invariant
                1 <= k < chain@.len(),
                typ == REQ_IN || typ == REQ_OUT,
                i < self.devices@.len(),
                same_layout(old(self).devices@, self.devices@),
                old(self).devices@[i as int].dev is Blk,
                old(self).wf() ==> self.wf(),
                k == 1 ==> *self == *old(self) && offset == sector * 512 && written == 0,
                dev_wf(old(self).devices@[i as int].dev) && chain@.len() == 3 && k == 2 ==> ({
                    let d = chain@[1];
                    let buf = bus_addr(d.addr);
                    let disk = blk_of(old(self).devices@[i as int].dev).disk@;
                    let off = sector * 512;
                    &&& typ == REQ_IN && off + d.len <= disk.len() && ram_range(old(self).devices@, buf, d.len as nat)
                        ==> written == d.len && blk_of(self.devices@[i as int].dev).disk@ == disk && (forall|k: int|
                        0 <= k < d.len ==> #[trigger] ram_byte_at(self.devices@, (buf + k) as usize) == Some(
                            disk[off + k],
                        )) && (forall|b: usize|
                        !(buf <= b < buf + d.len) ==> #[trigger] ram_byte_at(self.devices@, b) == ram_byte_at(
                            old(self).devices@,
                            b,
                        ))
                    &&& typ == REQ_OUT && off + d.len <= disk.len() && ram_range(old(self).devices@, buf, d.len as nat)
                        ==> written == 0 && blk_of(self.devices@[i as int].dev).disk@ == disk.subrange(0, off)
                        + ram_bytes(old(self).devices@, buf, d.len as nat) + disk.subrange(off + d.len, disk.len() as int)
                        && (forall|b: usize| #[trigger] ram_byte_at(self.devices@, b) == ram_byte_at(old(self).devices@, b))
                }),
            decreases chain@.len() - k,
        {
            let d = chain[k];
            let ghost before = self.devices@;
            proof {
                assert(same_kind(old(self).devices@[i as int].dev, self.devices@[i as int].dev));
            }
            let wf_i = match &self.devices[i].dev {
                Dev::Blk(b) => b.queues.len() == MAX_QUEUES,
                _ => false,
            };
            if !wf_i {
                return (BLK_S_IOERR, written);
            }
            proof {
                if k == 1 {
                    assert(d == chain@[1]);
                }
            }
            let moved = match self.transfer_one(i, d, typ, offset) {
                Some(n) => n,
                None => {
                    proof {
                        let disk = blk_of(old(self).devices@[i as int].dev).disk@;
                        let dd = chain@[1];
                        if k == 1 && chain@.len() == 3 && dev_wf(old(self).devices@[i as int].dev) {
                            assert(d == dd);
                            assert(!(typ == REQ_IN && offset + dd.len <= disk.len() && ram_range(before, bus_addr(dd.addr), dd.len as nat)));
                        }
                    }
                    return (BLK_S_IOERR, written);
                },
            };
            proof {
                lemma_same_layout_trans(old(self).devices@, before, self.devices@);
            }
            written = if moved <= u32::MAX - written { written + moved } else { u32::MAX };
            proof {
                let disk = blk_of(old(self).devices@[i as int].dev).disk@;
                assert(blk_of(old(self).devices@[i as int].dev).disk.len() == disk.len());
                assert(usize::MAX <= u64::MAX);
            }
            offset = match offset.checked_add(d.len as u64) {
                Some(o) => o,
                None => return (BLK_S_IOERR, written),
            };
            k = k + 1;
        }
        (BLK_S_OK, written)
    }

    /// The descriptor chain that starts at `head`, following NEXT links for
    /// at most `size` descriptors.
    #[verifier::rlimit(50)]
    fn collect_chain(&mut self, table: u64, head: u16, size: usize) -> (r: Vec<Desc>)
        ensures
            same_layout(old(self).devices@, final(self).devices@),
            old(self).wf() ==> final(self).wf(),
            r@.len() <= size,
            size >= 3 && chain3(old(self).devices@, table, head) is Some ==> r@ == chain3(
                old(self).devices@,
                table,
                head,
            )->0 && ram_same(old(self).devices@, final(self).devices@),
    {
        let ghost c = chain3(old(self).devices@, table, head)->0;
        let ghost h = size >= 3 && chain3(old(self).devices@, table, head) is Some;
        proof {
            if h {
                lemma_chain3(old(self).devices@, table, head);
            }
        }
        let mut chain: Vec<Desc> = Vec::new();
        let mut cur = head;
        let mut done = false;
        while !done && chain.len() < size
            invariant
                chain@.len() <= size,
                same_layout(old(self).devices@, self.devices@),
                old(self).wf() ==> self.wf(),
                h == (size >= 3 && chain3(old(self).devices@, table, head) is Some),
                c == chain3(old(self).devices@, table, head)->0,
                h ==> c.len() == 3 && desc_spec(old(self).devices@, table, head) == Some(c[0])
                    && c[0].flags & DESC_NEXT != 0 && desc_spec(old(self).devices@, table, c[0].next)
                    == Some(c[1]) && c[1].flags & DESC_NEXT != 0 && desc_spec(old(self).devices@, table, c[1].next)
                    == Some(c[2]) && c[2].flags & DESC_NEXT == 0,
                h ==> ram_same(old(self).devices@, self.devices@) && chain@.len() <= 3
                    && chain@ == c.subrange(0, chain@.len() as int) && (done <==> chain@.len() == 3)
                    && (chain@.len() == 0 ==> cur == head) && (chain@.len() == 1 ==> cur == c[0].next)
                    && (chain@.len() == 2 ==> cur == c[1].next),
            decreases size - chain@.len(),
        {
            let ghost before = self.devices@;
            proof {
                if h {
                    lemma_ram_same_desc(old(self).devices@, before, table, cur);
                    assert(desc_spec(before, table, cur) == Some(c[chain@.len() as int]));
                }
            }
            let d = match self.read_desc(table, cur) {
                Some(d) => d,
                None => {
                    assert(!h);
                    assert(!(size >= 3 && chain3(old(self).devices@, table, head) is Some));
                    return chain;
                },
            };
            proof {
                lemma_same_layout_trans(old(self).devices@, before, self.devices@);
                if h {
                    lemma_ram_same_trans(old(self).devices@, before, self.devices@);
                }
            }
            chain.push(d);
            proof {
                if h {
                    assert(chain@ =~= c.subrange(0, chain@.len() as int));
                }
            }
            if d.flags & DESC_NEXT == 0 {
                done = true;
            } else {
                cur = d.next;
            }
        }
        proof {
            if h {
                assert(chain@.len() == 3);
                assert(chain@ =~= c);
            }
        }
        chain
    }

    /// Appends `(head, len)` to the used ring at guest address `used` and
    /// advances its index. Where RAM holds the ring, exactly the entry at the
    /// old index and the index itself change.
    #[verifier::rlimit(100)]
    fn push_used(&mut self, used: usize, size: usize, head: u16, len: u32)
        requires
            size > 0,
        ensures
            same_layout(old(self).devices@, final(self).devices@),
            old(self).wf() ==> final(self).wf(),
            size <= 0x1_0000 && ram_range(old(self).devices@, used, (4 + 8 * size) as nat) ==> ({
                let ui = le16(ram_bytes(old(self).devices@, (used + 2) as usize, 2), 0);
                let e = (used + 4 + 8 * (ui as int % size as int)) as usize;
                &&& ram_bytes(final(self).devices@, e, 8) == le_bytes32(head as u32) + le_bytes32(len)
                &&& ram_bytes(final(self).devices@, (used + 2) as usize, 2) == le_bytes16(ui.wrapping_add(1))
                &&& forall|b: usize|
                    !(used <= b < used + 4 + 8 * size) ==> #[trigger] ram_byte_at(final(self).devices@, b)
                        == ram_byte_at(old(self).devices@, b)
                &&& forall|j: int|
                    0 <= j < old(self).devices@.len() && !(old(self).devices@[j].dev is Ram)
                        && !(old(self).devices@[j].dev is Rom) ==> #[trigger] final(self).devices@[j]
                        == old(self).devices@[j]
            }),
    {
        let ghost d0 = self.devices@;
        let ghost h = size <= 0x1_0000 && ram_range(d0, used, (4 + 8 * size) as nat);
        proof {
            if h {
                assert(used.wrapping_add(2) == used + 2);
                assert forall|k: int| 0 <= k < 2 implies #[trigger] ram_byte_at(d0, (used.wrapping_add(2) + k) as usize) is Some by {
                    assert(ram_byte_at(d0, (used + (2 + k)) as usize) is Some);
                }
                assert(ram_range(d0, used.wrapping_add(2), 2));
            }
        }
        let ib = match self.read_bytes(used.wrapping_add(2), 2) {
            Ok(v) => v,
            Err(_) => return,
        };
        let ghost d1 = self.devices@;
        proof {
            if h {
                assert forall|b: usize| #[trigger] ram_byte_at(d1, b) == ram_byte_at(d0, b) by {
                    lemma_ram_same_reads(d0, d1, b, 0);
                }
            }
        }
        let used_idx = (ib[0] as u16) | ((ib[1] as u16) << 8u16);
        let slot = (used_idx as usize) % size;
        if slot > usize::MAX / 8 {
            return;
        }
        let entry = used.wrapping_add(4).wrapping_add(slot * 8);
        let hw = head as u32;
        let eb: Vec<u8> = vec![
            (hw & 0xff) as u8,
            ((hw >> 8u32) & 0xff) as u8,
            ((hw >> 16u32) & 0xff) as u8,
            ((hw >> 24u32) & 0xff) as u8,
            (len & 0xff) as u8,
            ((len >> 8u32) & 0xff) as u8,
            ((len >> 16u32) & 0xff) as u8,
            ((len >> 24u32) & 0xff) as u8,
        ];
        proof {
            if h {
                assert(ib@ =~= ram_bytes(d0, (used + 2) as usize, 2));
                assert(slot < size);
                assert(slot * 8 < 8 * size);
                assert(used.wrapping_add(4) == used + 4);
                assert(entry == used + 4 + 8 * slot);
                assert forall|k: int| 0 <= k < 8 implies #[trigger] ram_byte_at(d1, (entry + k) as usize) is Some by {
                    assert(ram_byte_at(d0, (used + (4 + 8 * slot + k)) as usize) is Some);
                }
                assert(ram_range(d1, entry, 8));
            }
        }
        if self.write(entry, eb.as_slice()).is_err() {
            return;
        }
        let ghost d2 = self.devices@;
        let n = used_idx.wrapping_add(1);
        let nb: Vec<u8> = vec![(n & 0xff) as u8, ((n >> 8u16) & 0xff) as u8];
        let idx_addr = used.wrapping_add(2);
        proof {
            lemma_same_layout_trans(old(self).devices@, d1, d2);
            if h {
                assert(idx_addr == used + 2);
                assert forall|k: int| 0 <= k < 2 implies #[trigger] ram_byte_at(d2, (idx_addr + k) as usize) is Some by {
                    assert(ram_byte_at(d0, (used + (2 + k)) as usize) is Some);
                    assert(ram_byte_at(d2, (idx_addr + k) as usize) == ram_byte_at(d1, (idx_addr + k) as usize));
                }
                assert(ram_range(d2, idx_addr, 2));
            }
        }
        let _ = self.write(idx_addr, nb.as_slice());
        proof {
            lemma_same_layout_trans(old(self).devices@, d2, self.devices@);
            if h {
                let e = entry;
                assert(le_bytes32(head as u32) + le_bytes32(len) =~= eb@);
                assert forall|k: int| 0 <= k < 8 implies #[trigger] ram_byte_at(self.devices@, (e + k) as usize)
                    == Some(eb@[k]) by {
                    assert(ram_byte_at(d2, (e + k) as usize) == Some(eb@[k]));
                }
                assert(ram_bytes(self.devices@, e, 8) =~= eb@);
                assert(le_bytes16(n) =~= nb@);
                assert(ram_bytes(self.devices@, idx_addr, 2) =~= nb@);
                assert forall|b: usize| !(used <= b < used + 4 + 8 * size) implies #[trigger] ram_byte_at(
                    self.devices@,
                    b,
                ) == ram_byte_at(old(self).devices@, b) by {
                    assert(ram_byte_at(d2, b) == ram_byte_at(d1, b));
                }
                let ui = le16(ram_bytes(old(self).devices@, (used + 2) as usize, 2), 0);
                assert(ui == used_idx);
                assert(e == (used + 4 + 8 * (ui as int % size as int)) as usize);
                assert(n == ui.wrapping_add(1));
            }
        }
    }

    /// Serves the request whose head the available ring holds at entry `idx`:
    /// walks its descriptor chain, moves the data, writes the status byte and
    /// appends the chain to the used ring.
    #[verifier::rlimit(100)]
    fn serve_request(&mut self, i: usize, queue: Queue, idx: u16)
        requires
            i < old(self).devices@.len(),
            old(self).devices@[i as int].dev is Blk,
            queue.size > 0,
        ensures
            same_layout(old(self).devices@, final(self).devices@),
            old(self).wf() ==> final(self).wf(),
            request_laid_out(old(self).devices@, i as int, queue, idx) ==> request_served(
                old(self).devices@,
                final(self).devices@,
                i as int,
                queue,
                idx,
            ),
    {
        let ghost d0 = self.devices@;
        let ghost h = request_laid_out(d0, i as int, queue, idx);
        let size = queue.size as usize;
        let slot = (idx as usize) % size;
        let ring = guest_addr(queue.driver).wrapping_add(4).wrapping_add(slot.wrapping_mul(2));
        let rb = match self.read_bytes(ring, 2) {
            Ok(v) => v,
            Err(_) => return,
        };
        let head = (rb[0] as u16) | ((rb[1] as u16) << 8u16);
        let ghost s1 = self.devices@;
        proof {
            if h {
                assert(rb@ =~= ram_bytes(d0, ring, 2));
                lemma_chain3(d0, queue.desc, head);
                assert(chain3(s1, queue.desc, head) == chain3(d0, queue.desc, head)) by {
                    lemma_ram_same_desc(d0, s1, queue.desc, head);
                    let c = chain3(d0, queue.desc, head)->0;
                    lemma_ram_same_desc(d0, s1, queue.desc, c[0].next);
                    lemma_ram_same_desc(d0, s1, queue.desc, c[1].next);
                }
            }
        }
        let chain = self.collect_chain(queue.desc, head, size);
        let ghost s2 = self.devices@;
        proof {
            lemma_same_layout_trans(old(self).devices@, s1, s2);
            if h {
                lemma_ram_same_trans(d0, s1, s2);
            }
        }
        if chain.len() < 2 {
            return;
        }
        let hdr = chain[0];
        proof {
            if h {
                assert forall|x: usize| #[trigger] ram_byte_at(s2, x) == ram_byte_at(d0, x) by {
                    lemma_ram_same_reads(d0, s2, x, 0);
                }
                assert(ram_range(s2, bus_addr(hdr.addr), 16));
            }
        }
        let hb = match self.read_bytes(guest_addr(hdr.addr), 16) {
            Ok(v) => v,
            Err(_) => return,
        };
        let typ = (hb[0] as u32) | ((hb[1] as u32) << 8u32) | ((hb[2] as u32) << 16u32) | ((hb[3] as u32)
            << 24u32);
        let sector = (hb[8] as u64) | ((hb[9] as u64) << 8u64) | ((hb[10] as u64) << 16u64) | ((hb[11] as u64)
            << 24u64) | ((hb[12] as u64) << 32u64) | ((hb[13] as u64) << 40u64) | ((hb[14] as u64) << 48u64)
            | ((hb[15] as u64) << 56u64);
        let ghost s3 = self.devices@;
        proof {
            lemma_same_layout_trans(old(self).devices@, s2, s3);
            if h {
                lemma_ram_same_trans(d0, s2, s3);
                assert(hb@ =~= ram_bytes(d0, bus_addr(hdr.addr), 16));
                assert forall|x: usize| #[trigger] ram_byte_at(s3, x) == ram_byte_at(d0, x) by {
                    lemma_ram_same_reads(d0, s3, x, 0);
                }
                assert(s3[i as int] == d0[i as int]);
            }
            assert(same_kind(old(self).devices@[i as int].dev, self.devices@[i as int].dev));
            if h {
                let c = chain3(d0, queue.desc, head)->0;
                let hbs = ram_bytes(d0, bus_addr(c[0].addr), 16);
                assert(chain@ == c);
                assert(typ == le32(hbs, 0));
                assert(sector == le64(hbs, 8));
                let buf = bus_addr(c[1].addr);
                assert forall|k: int| 0 <= k < c[1].len implies #[trigger] ram_byte_at(s3, (buf + k) as usize) is Some by {
                    assert(ram_byte_at(d0, (buf + k) as usize) is Some);
                }
                assert(ram_range(s3, buf, c[1].len as nat));
                assert(ram_bytes(s3, buf, c[1].len as nat) =~= ram_bytes(d0, buf, c[1].len as nat));
            }
        }
        let (status, written) = self.transfer(i, &chain, typ, sector);
        let ghost s4 = self.devices@;
        proof { lemma_same_layout_trans(old(self).devices@, s3, s4); }
        let status_desc = chain[chain.len() - 1];
        let sb: Vec<u8> = vec![status];
        proof {
            if h {
                let c = chain3(d0, queue.desc, head)->0;
                assert(ram_byte_at(s4, bus_addr(status_desc.addr)) == ram_byte_at(d0, bus_addr(status_desc.addr)));
                assert(ram_range(s4, bus_addr(status_desc.addr), 1)) by {
                    assert(ram_byte_at(d0, (bus_addr(c[2].addr) + 0) as usize) is Some);
                }
            }
        }
        if self.write(guest_addr(status_desc.addr), sb.as_slice()).is_err() {
            return;
        }
        let ghost s5 = self.devices@;
        proof { lemma_same_layout_trans(old(self).devices@, s4, s5); }
        let used_len = written.wrapping_add(1);
        let used = guest_addr(queue.device);
        proof {
            if h {
                assert forall|k: int| 0 <= k < 4 + 8 * size implies #[trigger] ram_byte_at(s5, (used + k) as usize)
                    == ram_byte_at(d0, (used + k) as usize) by {
                    assert(ram_byte_at(s4, (used + k) as usize) == ram_byte_at(d0, (used + k) as usize));
                }
                assert(ram_range(s5, used, (4 + 8 * size) as nat));
                assert(ram_bytes(s5, (used + 2) as usize, 2) =~= ram_bytes(d0, (used + 2) as usize, 2)) by {
                    assert(ram_byte_at(s5, (used + 2) as usize) == ram_byte_at(d0, (used + 2) as usize));
                    assert(ram_byte_at(s5, (used + 3) as usize) == ram_byte_at(d0, (used + 3) as usize));
                }
            }
        }
        self.push_used(used, size, head, used_len);
        proof {
            lemma_same_layout_trans(old(self).devices@, s5, self.devices@);
            if h {
                let c = chain3(d0, queue.desc, head)->0;
                let buf = bus_addr(c[1].addr);
                let st = bus_addr(c[2].addr);
                assert(ram_byte_at(self.devices@, st) == Some(BLK_S_OK));
                assert forall|k: int| 0 <= k < c[1].len && typ == REQ_IN implies #[trigger] ram_byte_at(
                    self.devices@,
                    (buf + k) as usize,
                ) == ram_byte_at(s4, (buf + k) as usize) by {
                    assert(ram_byte_at(s5, (buf + k) as usize) == ram_byte_at(s4, (buf + k) as usize));
                }
                assert(self.devices@[i as int] == s5[i as int]);
                assert(s5[i as int] == s4[i as int]);
                assert(status == BLK_S_OK);
                assert(ram_byte_at(s5, st) == Some(status)) by {
                    assert(ram_byte_at(s5, (st + 0) as usize) == Some(sb@[0]));
                }
                assert(request_served(d0, self.devices@, i as int, queue, idx));
            }
        }
    }

    /// Drops a pending QueueNotify of the block device of mapping `i`.
    fn clear_notify(&mut self, i: usize)
        requires
            i < old(self).devices@.len(),
        ensures
            same_layout(old(self).devices@, final(self).devices@),
            old(self).wf() ==> final(self).wf(),
            old(self).devices@[i as int].dev is Blk ==> blk_of(final(self).devices@[i as int].dev).notify is None,
            forall|j: int| 0 <= j < old(self).devices@.len() && j != i ==> final(self).devices@[j] == old(self).devices@[j],
    {
        match &mut self.devices[i].dev {
            Dev::Blk(b) => {
                b.take_notify();
            },
            _ => {},
        }
        proof {
            assert(old(self).wf() ==> self.wf()) by {
                if old(self).wf() {
                    assert forall|j: int| 0 <= j < self.devices@.len() implies #[trigger] dev_wf(self.devices@[j].dev) by {
                        assert(dev_wf(old(self).devices@[j].dev));
                    }
                }
            }
        }
    }

    /// Where mapping `i` is a block device with a pending QueueNotify, serves
    /// every request the driver has made available on that queue since the
    /// last service: the notification is consumed, the device's position in
    /// the available ring reaches the ring's index, the used-buffer interrupt
    /// is flagged and the device's PLIC source raised.
    #[verifier::rlimit(100)]
    fn serve_notified(&mut self, i: usize)
        ensures
            same_layout(old(self).devices@, final(self).devices@),
            old(self).wf() ==> final(self).wf(),
            i >= old(self).devices@.len() || !(old(self).devices@[i as int].dev is Blk)
                ==> *final(self) == *old(self),
            i < old(self).devices@.len() && old(self).devices@[i as int].dev is Blk ==> blk_of(
                final(self).devices@[i as int].dev,
            ).notify is None,
            i < old(self).devices@.len() && old(self).devices@[i as int].dev is Blk && old(
                self,
            ).wf() ==> ({
                let b = blk_of(old(self).devices@[i as int].dev);
                let nb = blk_of(final(self).devices@[i as int].dev);
                let q = b.notify->0 as int;
                let ring = ram_half_at(
                    old(self).devices@,
                    bus_addr(b.queues@[q].driver).wrapping_add(2),
                );
                let k = plic_from(old(self).devices@, 0)->0;
                b.notify is Some && q < MAX_QUEUES && b.queues@[q].ready && b.queues@[q].size > 0
                    && ring is Some ==> nb.queues@[q].last_avail == ring->0 && nb.interrupt_status
                    & 1 == 1 && (plic_from(old(self).devices@, 0) is Some && b.irq < crate::plic::NUM_SOURCES
                    ==> plic_of(final(self).devices@[k].dev).is_pending(b.irq as int))
            }),
            i < old(self).devices@.len() && old(self).devices@[i as int].dev is Blk && old(self).wf() ==> ({
                let b = blk_of(old(self).devices@[i as int].dev);
                let q = b.notify->0 as int;
                let queue = b.queues@[q];
                b.notify is Some && q < MAX_QUEUES && queue.ready && ram_half_at(
                    old(self).devices@,
                    bus_addr(queue.driver).wrapping_add(2),
                ) == Some(queue.last_avail.wrapping_add(1)) && request_laid_out(
                    old(self).devices@,
                    i as int,
                    queue,
                    queue.last_avail,
                ) ==> request_served(old(self).devices@, final(self).devices@, i as int, queue, queue.last_avail)
            }),
    {
        if i >= self.devices.len() {
            return;
        }
        let (note, irq) = match &self.devices[i].dev {
            Dev::Blk(b) => (b.notify, b.irq),
            _ => return,
        };
        let q = match note {
            Some(q) => q as usize,
            None => return,
        };
        proof {
            if old(self).wf() {
                assert(dev_wf(old(self).devices@[i as int].dev));
            }
        }
        let queue = match &self.devices[i].dev {
            Dev::Blk(b) => if q < b.queues.len() {
                b.queues[q]
            } else {
                self.clear_notify(i);
                return;
            },
            _ => return,
        };
        if !queue.ready || queue.size == 0 {
            self.clear_notify(i);
            return;
        }
        let ring_idx = guest_addr(queue.driver).wrapping_add(2);
        let avail_idx = match self.route_read_half(ring_idx) {
            Ok(v) => v,
            Err(_) => {
                self.clear_notify(i);
                return;
            },
        };
        let ghost s1 = self.devices@;
        let ghost single = old(self).wf() && ram_half_at(old(self).devices@, ring_idx) == Some(
            queue.last_avail.wrapping_add(1),
        ) && request_laid_out(old(self).devices@, i as int, queue, queue.last_avail);
        proof {
            assert(same_kind(old(self).devices@[i as int].dev, self.devices@[i as int].dev));
            if single {
                lemma_owner_from_bounds(old(self).devices@, ring_idx, 0);
                assert(s1[i as int] == old(self).devices@[i as int]);
                assert forall|x: usize| #[trigger] ram_byte_at(old(self).devices@, x) == ram_byte_at(s1, x) by {
                    lemma_ram_devices_same(old(self).devices@, s1, x);
                }
                lemma_request_same(old(self).devices@, s1, s1, s1, i as int, queue, queue.last_avail);
                assert(avail_idx == queue.last_avail.wrapping_add(1));
            }
        }
        let count = avail_idx.wrapping_sub(queue.last_avail);
        let mut k: u16 = 0;
        while k < count
            invariant
                i < self.devices@.len(),
                self.devices@[i as int].dev is Blk,
                same_layout(old(self).devices@, self.devices@),
                old(self).wf() ==> self.wf(),
                queue.size > 0,
                k <= count,
                single ==> count == 1 && request_laid_out(s1, i as int, queue, queue.last_avail)
                    && s1.len() == old(self).devices@.len() && s1[i as int] == old(self).devices@[i as int]
                    && (forall|x: usize| #[trigger] ram_byte_at(old(self).devices@, x) == ram_byte_at(s1, x)),
                single && k == 0 ==> self.devices@ == s1,
                single && k == 1 ==> request_served(s1, self.devices@, i as int, queue, queue.last_avail),
            decreases count - k,
        {
            let ghost before = self.devices@;
            self.serve_request(i, queue, queue.last_avail.wrapping_add(k));
            proof {
                lemma_same_layout_trans(old(self).devices@, before, self.devices@);
                assert(same_kind(before[i as int].dev, self.devices@[i as int].dev));
            }
            k = k + 1;
        }
        let ghost s_served = self.devices@;
        let ghost before = self.devices@;
        proof {
            if old(self).wf() {
                assert(dev_wf(self.devices@[i as int].dev));
            }
        }
        match &mut self.devices[i].dev {
            Dev::Blk(b) => {
                b.take_notify();
                if b.queues.len() == MAX_QUEUES {
                    b.finish_queue(q, avail_idx)
                }
            },
            _ => {},
        }
        proof {
            assert(same_layout(before, self.devices@));
            lemma_same_layout_trans(old(self).devices@, before, self.devices@);
            assert(old(self).wf() ==> self.wf()) by {
                if old(self).wf() {
                    assert forall|j: int| 0 <= j < self.devices@.len() implies #[trigger] dev_wf(self.devices@[j].dev) by {
                        assert(dev_wf(before[j].dev));
                    }
                }
            }
        }
        let ghost s2 = self.devices@;
        proof {
            lemma_plic_from_layout(old(self).devices@, s2, 0);
            if old(self).wf() && plic_from(old(self).devices@, 0) is Some {
                assert(dev_wf(s2[plic_from(s2, 0)->0].dev));
            }
        }
        self.raise(irq);
        proof {
            lemma_same_layout_trans(old(self).devices@, s2, self.devices@);
            if single {
                assert forall|x: usize| #[trigger] ram_byte_at(s_served, x) == ram_byte_at(self.devices@, x) by {
                    lemma_ram_devices_same(s_served, s2, x);
                    lemma_ram_devices_same(s2, self.devices@, x);
                }
                assert(self.devices@[i as int] == s2[i as int]);
                assert(blk_of(s2[i as int].dev).disk@ == blk_of(before[i as int].dev).disk@);
                assert(before == s_served);
                assert(k == 1);
                assert(request_served(s1, s_served, i as int, queue, queue.last_avail));
                lemma_request_same(old(self).devices@, s1, self.devices@, s_served, i as int, queue, queue.last_avail);
            }
        }
    }

    /// The index of the console UART.
    fn console(&self) -> (r: Option<usize>)
        ensures
            r is None <==> console_from(self.devices@, 0) is None,
            r is Some ==> r->0 == console_from(self.devices@, 0)->0 && r->0 < self.devices@.len()
                && self.devices@[r->0 as int].dev is Uart,
    {
        proof {
            lemma_console_from_bounds(self.devices@, 0);
        }
        let mut j: usize = 0;
        while j < self.devices.len()
            invariant
                j <= self.devices@.len(),
                console_from(self.devices@, 0) == console_from(self.devices@, j as int),
            decreases self.devices@.len() - j,
        {
            if let Dev::Uart(_) = &self.devices[j].dev {
                return Some(j);
            }
            j = j + 1;
        }
        None
    }

    /// Hands over the bytes the console UART has transmitted since the last
    /// call.
    pub fn take_console_output(&mut self) -> (r: Vec<u8>)
        ensures
            same_layout(old(self).devices@, final(self).devices@),
            old(self).wf() ==> final(self).wf(),
            console_from(old(self).devices@, 0) is None ==> r@.len() == 0 && *final(self) == *old(self),
            console_from(old(self).devices@, 0) matches Some(k) ==> r@ == uart_of(old(self).devices@[k].dev).output@
                && uart_of(final(self).devices@[k].dev).output@.len() == 0
                && uart_of(final(self).devices@[k].dev).input@ == uart_of(old(self).devices@[k].dev).input@
                && forall|j: int| 0 <= j < old(self).devices@.len() && j != k ==> final(self).devices@[j] == old(self).devices@[j],
    {
        match self.console() {
            None => Vec::new(),
            Some(k) => {
                let out = match &mut self.devices[k].dev {
                    Dev::Uart(u) => u.take_output(),
                    _ => Vec::new(),
                };
                proof {
                    assert(old(self).wf() ==> self.wf()) by {
                        if old(self).wf() {
                            assert forall|j: int| 0 <= j < self.devices@.len() implies #[trigger] dev_wf(self.devices@[j].dev) by {
                                assert(dev_wf(old(self).devices@[j].dev));
                            }
                        }
                    }
                }
                out
            },
        }
    }

    /// Queues a byte for the console UART to receive.
    pub fn push_console_input(&mut self, b: u8)
        ensures
            same_layout(old(self).devices@, final(self).devices@),
            old(self).wf() ==> final(self).wf(),
            console_from(old(self).devices@, 0) is None ==> *final(self) == *old(self),
            console_from(old(self).devices@, 0) matches Some(k) ==> uart_of(final(self).devices@[k].dev).input@
                == uart_of(old(self).devices@[k].dev).input@.push(b)
                && uart_of(final(self).devices@[k].dev).output@ == uart_of(old(self).devices@[k].dev).output@
                && forall|j: int| 0 <= j < old(self).devices@.len() && j != k ==> final(self).devices@[j] == old(self).devices@[j],
    {
        match self.console() {
            None => {},
            Some(k) => {
                match &mut self.devices[k].dev {
                    Dev::Uart(u) => u.push_input(b),
                    _ => {},
                }
                proof {
                    assert(old(self).wf() ==> self.wf()) by {
                        if old(self).wf() {
                            assert forall|j: int| 0 <= j < self.devices@.len() implies #[trigger] dev_wf(self.devices@[j].dev) by {
                                assert(dev_wf(old(self).devices@[j].dev));
                            }
                        }
                    }
                }
            },
        }
    }

    /// Reads `data.len()` bytes starting at `addr`, one byte access each;
    /// stops at the first that fails. Where RAM serves every byte, the read
    /// succeeds and gives RAM's bytes.
    pub fn read(&mut self, addr: usize, data: &mut [u8]) -> (r: Result<(), Interrupt>)
        ensures
            same_layout(old(self).devices@, final(self).devices@),
            old(self).wf() ==> final(self).wf(),
            final(data)@.len() == old(data)@.len(),
            ram_range(old(self).devices@, addr, old(data)@.len()) ==> r is Ok && ram_same(
                old(self).devices@,
                final(self).devices@,
            ) && forall|k: int|
                0 <= k < old(data)@.len() ==> Some(#[trigger] final(data)@[k]) == ram_byte_at(
                    old(self).devices@,
                    (addr + k) as usize,
                ),
    {
        let mut i: usize = 0;
        while i < data.len()
            invariant
                i <= data@.len(),
                data@.len() == old(data)@.len(),
                same_layout(old(self).devices@, self.devices@),
                old(self).wf() ==> self.wf(),
                ram_range(old(self).devices@, addr, old(data)@.len()) ==> ram_same(
                    old(self).devices@,
                    self.devices@,
                ) && forall|k: int| 0 <= k < i ==> Some(#[trigger] data@[k]) == ram_byte_at(
                    old(self).devices@,
                    (addr + k) as usize,
                ),
            decreases data@.len() - i,
        {
            let a = addr.wrapping_add(i);
            let ghost before = self.devices@;
            proof {
                if ram_range(old(self).devices@, addr, old(data)@.len()) {
                    assert(a == (addr + i) as usize);
                    assert(ram_byte_at(old(self).devices@, (addr + i) as usize) is Some);
                    lemma_ram_same_reads(old(self).devices@, before, a, 0);
                    lemma_owner_from_bounds(before, a, 0);
                }
            }
            let b = self.read_byte(a)?;
            proof {
                if ram_range(old(self).devices@, addr, old(data)@.len()) {
                    assert(ram_same(before, self.devices@));
                    lemma_ram_same_trans(old(self).devices@, before, self.devices@);
                }
            }
            data[i] = b;
            i = i + 1;
        }
        Ok(())
    }

    /// Writes `data` starting at `addr`, one byte access each; stops at the
    /// first that fails. Where RAM serves every byte, the write succeeds, RAM
    /// holds `data` there and every other byte RAM holds is kept. Where RAM
    /// serves the first `k` bytes and no device the next, the `k` bytes are
    /// written, nothing else, and the write fails as unmapped at that byte.
    pub fn write(&mut self, addr: usize, data: &[u8]) -> (r: Result<(), Interrupt>)
        ensures
            same_layout(old(self).devices@, final(self).devices@),
            old(self).wf() ==> final(self).wf(),
            ram_range(old(self).devices@, addr, data@.len()) ==> r is Ok && (forall|k: int|
                0 <= k < data@.len() ==> #[trigger] ram_byte_at(final(self).devices@, (addr + k) as usize)
                    == Some(data@[k])) && (forall|b: usize|
                !(addr <= b < addr + data@.len()) ==> #[trigger] ram_byte_at(final(self).devices@, b)
                    == ram_byte_at(old(self).devices@, b)) && (forall|j: int|
                0 <= j < old(self).devices@.len() && !(old(self).devices@[j].dev is Ram) ==> #[trigger] final(self).devices@[j]
                    == old(self).devices@[j]),
            forall|k: int|
                0 <= k < data@.len() && addr + data@.len() <= usize::MAX && ram_range(old(self).devices@, addr, k as nat)
                    && #[trigger] owner(old(self).devices@, (addr + k) as usize) is None ==> r == Err::<(), Interrupt>(
                    Interrupt::Unmapped((addr + k) as usize),
                ) && (forall|m: int| 0 <= m < k ==> #[trigger] ram_byte_at(final(self).devices@, (addr + m) as usize)
                    == Some(data@[m])) && (forall|b: usize|
                    !(addr <= b < addr + k) ==> #[trigger] ram_byte_at(final(self).devices@, b) == ram_byte_at(
                        old(self).devices@,
                        b,
                    )),
    {
        let mut i: usize = 0;
        while i < data.len()
            invariant
                i <= data@.len(),
                same_layout(old(self).devices@, self.devices@),
                old(self).wf() ==> self.wf(),
                addr + i <= usize::MAX ==> forall|k: int|
                    0 <= k < i ==> #[trigger] owner(old(self).devices@, (addr + k) as usize) is Some,
                ram_range(old(self).devices@, addr, i as nat) ==> (forall|k: int|
                    0 <= k < i ==> #[trigger] ram_byte_at(self.devices@, (addr + k) as usize) == Some(data@[k]))
                    && (forall|b: usize|
                    !(addr <= b < addr + i) ==> #[trigger] ram_byte_at(self.devices@, b) == ram_byte_at(
                        old(self).devices@,
                        b,
                    )) && (forall|j: int|
                    0 <= j < old(self).devices@.len() && !(old(self).devices@[j].dev is Ram) ==> #[trigger] self.devices@[j]
                        == old(self).devices@[j]),
            decreases data@.len() - i,
        {
            let a = addr.wrapping_add(i);
            let ghost before = self.devices@;
            let ghost cur_ram = addr + i <= usize::MAX && ram_byte_at(old(self).devices@, (addr + i) as usize) is Some;
            proof {
                lemma_owner_same_layout(old(self).devices@, before, a, 0);
                lemma_owner_from_bounds(before, a, 0);
                lemma_owner_from_bounds(old(self).devices@, a, 0);
                if ram_range(old(self).devices@, addr, i as nat) && cur_ram {
                    assert(a == (addr + i) as usize);
                    assert(ram_byte_at(before, a) == ram_byte_at(old(self).devices@, a));
                }
            }
            let res = self.write_byte(a, data[i]);
            if res.is_err() {
                proof {
                    if addr + data@.len() <= usize::MAX {
                        assert(a == (addr + i) as usize);
                        assert forall|k: int|
                            0 <= k < data@.len() && addr + data@.len() <= usize::MAX && ram_range(old(self).devices@, addr, k as nat)
                                && #[trigger] owner(old(self).devices@, (addr + k) as usize) is None implies k == i by {
                            if k > i {
                                assert(ram_byte_at(old(self).devices@, (addr + i) as usize) is Some);
                                assert(ram_range(old(self).devices@, addr, i as nat));
                            }
                        }
                    }
                }
                return res;
            }
            proof {
                lemma_same_layout_trans(old(self).devices@, before, self.devices@);
                if ram_range(old(self).devices@, addr, i as nat) && cur_ram {
                    assert forall|b: usize| b != a implies #[trigger] ram_byte_at(self.devices@, b)
                        == ram_byte_at(before, b) by {
                        lemma_byte_write(before, self.devices@, a, data@[i as int], b);
                    }
                    lemma_byte_write(before, self.devices@, a, data@[i as int], a);
                    assert forall|j: int| 0 <= j < old(self).devices@.len() && !(old(self).devices@[j].dev is Ram)
                        implies #[trigger] self.devices@[j] == old(self).devices@[j] by {
                        assert(before[j] == old(self).devices@[j]);
                        assert(j != owner(before, a)->0);
                    }
                    assert forall|k: int| 0 <= k < i + 1 implies #[trigger] ram_byte_at(
                        self.devices@,
                        (addr + k) as usize,
                    ) == Some(data@[k]) by {
                        if k < i {
                            assert(((addr + k) as usize) != a);
                            assert(ram_byte_at(before, (addr + k) as usize) == Some(data@[k]));
                        }
                    }
                    assert forall|b: usize| !(addr <= b < addr + i + 1) implies #[trigger] ram_byte_at(
                        self.devices@,
                        b,
                    ) == ram_byte_at(old(self).devices@, b) by {
                        assert(b != a);
                        assert(ram_byte_at(before, b) == ram_byte_at(old(self).devices@, b));
                    }
                }
                if addr + i + 1 <= usize::MAX {
                    assert(a == (addr + i) as usize);
                    assert(owner(old(self).devices@, a) is Some);
                }
            }
            i = i + 1;
        }
        Ok(())
    }
}

impl Device for DynBus {
    fn write_double(&mut self, addr: usize, val: u64) -> (r: Result<(), Interrupt>)
        ensures
            final(self).devices@.len() == old(self).devices@.len(),
            forall|j: int| 0 <= j < old(self).devices@.len() ==> final(self).devices@[j].start == old(self).devices@[j].start && final(self).devices@[j].end == old(self).devices@[j].end && same_kind(old(self).devices@[j].dev, final(self).devices@[j].dev),
            old(self).wf() ==> final(self).wf(),
            owner(old(self).devices@, addr) is Some && !(old(self).devices@[owner(old(self).devices@, addr)->0].dev is Clint)
                && !(old(self).devices@[owner(old(self).devices@, addr)->0].dev is Blk)
                ==> forall|j: int| 0 <= j < old(self).devices@.len() && j != owner(old(self).devices@, addr)->0
                ==> #[trigger] final(self).devices@[j] == old(self).devices@[j],
            owner(old(self).devices@, addr) is None ==> r == Err::<(), Interrupt>(Interrupt::Unmapped(addr)) && *final(self) == *old(self),
            no_htif(old(self).devices@) ==> r != Err::<(), Interrupt>(Interrupt::Halt),
            owner(old(self).devices@, addr) is Some && old(self).devices@[owner(old(self).devices@, addr)->0].dev is Ram ==> ({
                let i = owner(old(self).devices@, addr)->0;
                let m = old(self).devices@[i];
                ram_of(final(self).devices@[i].dev) == ram_write_double(ram_of(m.dev), (addr - m.start) as usize, val)
                    && (r is Ok <==> fits((addr - m.start) as usize, 8, ram_of(m.dev).len()))
                    && (forall|j: int| 0 <= j < old(self).devices@.len() && j != i ==> final(self).devices@[j] == old(self).devices@[j])
            }),
    {
        if let Some(a) = self.clint_forward(addr) {
            return self.route_write_double(a, val);
        }
        self.route_write_double(addr, val)
    }
    fn write_word(&mut self, addr: usize, val: u32) -> (r: Result<(), Interrupt>)
        ensures
            final(self).devices@.len() == old(self).devices@.len(),
            forall|j: int| 0 <= j < old(self).devices@.len() ==> final(self).devices@[j].start == old(self).devices@[j].start && final(self).devices@[j].end == old(self).devices@[j].end && same_kind(old(self).devices@[j].dev, final(self).devices@[j].dev),
            old(self).wf() ==> final(self).wf(),
            owner(old(self).devices@, addr) is Some && old(self).devices@[owner(old(self).devices@, addr)->0].dev is Blk
                ==> blk_of(final(self).devices@[owner(old(self).devices@, addr)->0].dev).notify is None,
            old(self).wf() && owner(old(self).devices@, addr) is Some ==> queue_notify_served(
                old(self).devices@,
                final(self).devices@,
                owner(old(self).devices@, addr)->0,
                addr,
                val,
            ),
            owner(old(self).devices@, addr) is Some && !(old(self).devices@[owner(old(self).devices@, addr)->0].dev is Clint)
                && !(old(self).devices@[owner(old(self).devices@, addr)->0].dev is Blk)
                ==> forall|j: int| 0 <= j < old(self).devices@.len() && j != owner(old(self).devices@, addr)->0
                ==> #[trigger] final(self).devices@[j] == old(self).devices@[j],
            owner(old(self).devices@, addr) is None ==> r == Err::<(), Interrupt>(Interrupt::Unmapped(addr)) && *final(self) == *old(self),
            no_htif(old(self).devices@) ==> r != Err::<(), Interrupt>(Interrupt::Halt),
            owner(old(self).devices@, addr) is Some && old(self).devices@[owner(old(self).devices@, addr)->0].dev is Ram ==> ({
                let i = owner(old(self).devices@, addr)->0;
                let m = old(self).devices@[i];
                ram_of(final(self).devices@[i].dev) == ram_write_word(ram_of(m.dev), (addr - m.start) as usize, val)
                    && (r is Ok <==> fits((addr - m.start) as usize, 4, ram_of(m.dev).len()))
                    && (forall|j: int| 0 <= j < old(self).devices@.len() && j != i ==> final(self).devices@[j] == old(self).devices@[j])
            }),
    {
        if let Some(a) = self.clint_forward(addr) {
            return self.route_write_word(a, val);
        }
        let target = self.find(addr);
        let ghost s0 = self.devices@;
        let r = self.route_write_word(addr, val);
        let ghost s1 = self.devices@;
        if let Some(i) = target {
            proof {
                if old(self).wf() && s0[i as int].dev is Blk {
                    assert(dev_wf(s0[i as int].dev));
                    assert forall|x: usize| #[trigger] ram_byte_at(s0, x) == ram_byte_at(s1, x) && ram_half_at(s0, x)
                        == ram_half_at(s1, x) by {
                        lemma_ram_devices_same(s0, s1, x);
                    }
                    lemma_plic_from_layout(s0, s1, 0);
                    if plic_from(s0, 0) is Some {
                        assert(s1[plic_from(s0, 0)->0] == s0[plic_from(s0, 0)->0]);
                    }
                }
            }
            self.serve_notified(i);
            proof {
                if old(self).wf() && s0[i as int].dev is Blk && (addr - s0[i as int].start) == REG_QUEUE_NOTIFY {
                    let b = blk_of(s0[i as int].dev);
                    let queue = b.queues@[val as int];
                    if (val as int) < MAX_QUEUES {
                        assert(blk_of(s1[i as int].dev).notify == Some(val));
                        assert(blk_of(s1[i as int].dev).queues@ == b.queues@);
                        assert(blk_of(s1[i as int].dev).irq == b.irq);
                        assert(s1.len() == s0.len());
                        lemma_request_same(s0, s1, self.devices@, self.devices@, i as int, queue, queue.last_avail);
                        let ring = ram_half_at(s0, bus_addr(queue.driver).wrapping_add(2));
                        lemma_ram_devices_same(s0, s1, bus_addr(queue.driver).wrapping_add(2));
                        assert(ring == ram_half_at(s1, bus_addr(queue.driver).wrapping_add(2)));
                        assert(plic_from(s0, 0) == plic_from(s1, 0));
                        if queue.ready && queue.size > 0 && ring is Some {
                            assert(blk_of(self.devices@[i as int].dev).notify is None);
                            assert(blk_of(self.devices@[i as int].dev).queues@[val as int].last_avail == ring->0);
                            assert(blk_of(self.devices@[i as int].dev).interrupt_status & 1 == 1);
                        }
                        assert(queue_notify_served(s0, self.devices@, i as int, addr, val));
                    }
                }
            }
        }
        r
    }
    fn write_half(&mut self, addr: usize, val: u16) -> (r: Result<(), Interrupt>)
        ensures
            final(self).devices@.len() == old(self).devices@.len(),
            forall|j: int| 0 <= j < old(self).devices@.len() ==> final(self).devices@[j].start == old(self).devices@[j].start && final(self).devices@[j].end == old(self).devices@[j].end && same_kind(old(self).devices@[j].dev, final(self).devices@[j].dev),
            old(self).wf() ==> final(self).wf(),
            owner(old(self).devices@, addr) is Some && !(old(self).devices@[owner(old(self).devices@, addr)->0].dev is Clint)
                && !(old(self).devices@[owner(old(self).devices@, addr)->0].dev is Blk)
                ==> forall|j: int| 0 <= j < old(self).devices@.len() && j != owner(old(self).devices@, addr)->0
                ==> #[trigger] final(self).devices@[j] == old(self).devices@[j],
            owner(old(self).devices@, addr) is None ==> r == Err::<(), Interrupt>(Interrupt::Unmapped(addr)) && *final(self) == *old(self),
            no_htif(old(self).devices@) ==> r != Err::<(), Interrupt>(Interrupt::Halt),
            owner(old(self).devices@, addr) is Some && old(self).devices@[owner(old(self).devices@, addr)->0].dev is Ram ==> ({
                let i = owner(old(self).devices@, addr)->0;
                let m = old(self).devices@[i];
                ram_of(final(self).devices@[i].dev) == ram_write_half(ram_of(m.dev), (addr - m.start) as usize, val)
                    && (r is Ok <==> fits((addr - m.start) as usize, 2, ram_of(m.dev).len()))
                    && (forall|j: int| 0 <= j < old(self).devices@.len() && j != i ==> final(self).devices@[j] == old(self).devices@[j])
            }),
    {
        if let Some(a) = self.clint_forward(addr) {
            return self.route_write_half(a, val);
        }
        self.route_write_half(addr, val)
    }
    fn write_byte(&mut self, addr: usize, val: u8) -> (r: Result<(), Interrupt>)
        ensures
            final(self).devices@.len() == old(self).devices@.len(),
            forall|j: int| 0 <= j < old(self).devices@.len() ==> final(self).devices@[j].start == old(self).devices@[j].start && final(self).devices@[j].end == old(self).devices@[j].end && same_kind(old(self).devices@[j].dev, final(self).devices@[j].dev),
            old(self).wf() ==> final(self).wf(),
            owner(old(self).devices@, addr) is Some && !(old(self).devices@[owner(old(self).devices@, addr)->0].dev is Clint)
                && !(old(self).devices@[owner(old(self).devices@, addr)->0].dev is Blk)
                ==> forall|j: int| 0 <= j < old(self).devices@.len() && j != owner(old(self).devices@, addr)->0
                ==> #[trigger] final(self).devices@[j] == old(self).devices@[j],
            owner(old(self).devices@, addr) is None ==> r == Err::<(), Interrupt>(Interrupt::Unmapped(addr)) && *final(self) == *old(self),
            no_htif(old(self).devices@) ==> r != Err::<(), Interrupt>(Interrupt::Halt),
            owner(old(self).devices@, addr) is Some && old(self).devices@[owner(old(self).devices@, addr)->0].dev is Ram ==> ({
                let i = owner(old(self).devices@, addr)->0;
                let m = old(self).devices@[i];
                ram_of(final(self).devices@[i].dev) == ram_write_byte(ram_of(m.dev), (addr - m.start) as usize, val)
                    && (r is Ok <==> fits((addr - m.start) as usize, 1, ram_of(m.dev).len()))
                    && (forall|j: int| 0 <= j < old(self).devices@.len() && j != i ==> final(self).devices@[j] == old(self).devices@[j])
            }),
    {
        if let Some(a) = self.clint_forward(addr) {
            return self.route_write_byte(a, val);
        }
        self.route_write_byte(addr, val)
    }
    fn read_double(&mut self, addr: usize) -> (r: Result<u64, Interrupt>)
        ensures
            final(self).devices@.len() == old(self).devices@.len(),
            forall|j: int| 0 <= j < old(self).devices@.len() ==> final(self).devices@[j].start == old(self).devices@[j].start && final(self).devices@[j].end == old(self).devices@[j].end && same_kind(old(self).devices@[j].dev, final(self).devices@[j].dev),
            old(self).wf() ==> final(self).wf(),
            owner(old(self).devices@, addr) is Some && !(old(self).devices@[owner(old(self).devices@, addr)->0].dev is Clint)
                ==> forall|j: int| 0 <= j < old(self).devices@.len() && j != owner(old(self).devices@, addr)->0
                ==> #[trigger] final(self).devices@[j] == old(self).devices@[j],
            owner(old(self).devices@, addr) is None ==> r == Err::<u64, Interrupt>(Interrupt::Unmapped(addr)) && *final(self) == *old(self),
            no_htif(old(self).devices@) ==> r != Err::<u64, Interrupt>(Interrupt::Halt),
            owner(old(self).devices@, addr) is Some && old(self).devices@[owner(old(self).devices@, addr)->0].dev is Ram ==> ({
                let i = owner(old(self).devices@, addr)->0;
                let m = old(self).devices@[i];
                r == ram_read_double(ram_of(m.dev), (addr - m.start) as usize)
                    && final(self).devices@.len() == old(self).devices@.len()
                    && (forall|j: int| 0 <= j < old(self).devices@.len() && j != i ==> final(self).devices@[j] == old(self).devices@[j])
                    && ram_of(final(self).devices@[i].dev) == ram_of(m.dev)
            }),
            owner(old(self).devices@, addr) is Some && old(self).devices@[owner(old(self).devices@, addr)->0].dev is Rom ==> ({
                let i = owner(old(self).devices@, addr)->0;
                let m = old(self).devices@[i];
                r == ram_read_double(rom_of(m.dev), (addr - m.start) as usize)
                    && final(self).devices@.len() == old(self).devices@.len()
                    && (forall|j: int| 0 <= j < old(self).devices@.len() && j != i ==> final(self).devices@[j] == old(self).devices@[j])
                    && rom_of(final(self).devices@[i].dev) == rom_of(m.dev)
            }),
    {
        if let Some(a) = self.clint_forward(addr) {
            return self.route_read_double(a);
        }
        self.route_read_double(addr)
    }
    fn read_word(&mut self, addr: usize) -> (r: Result<u32, Interrupt>)
        ensures
            final(self).devices@.len() == old(self).devices@.len(),
            forall|j: int| 0 <= j < old(self).devices@.len() ==> final(self).devices@[j].start == old(self).devices@[j].start && final(self).devices@[j].end == old(self).devices@[j].end && same_kind(old(self).devices@[j].dev, final(self).devices@[j].dev),
            old(self).wf() ==> final(self).wf(),
            owner(old(self).devices@, addr) is Some && !(old(self).devices@[owner(old(self).devices@, addr)->0].dev is Clint)
                ==> forall|j: int| 0 <= j < old(self).devices@.len() && j != owner(old(self).devices@, addr)->0
                ==> #[trigger] final(self).devices@[j] == old(self).devices@[j],
            owner(old(self).devices@, addr) is None ==> r == Err::<u32, Interrupt>(Interrupt::Unmapped(addr)) && *final(self) == *old(self),
            no_htif(old(self).devices@) ==> r != Err::<u32, Interrupt>(Interrupt::Halt),
            owner(old(self).devices@, addr) is Some && old(self).devices@[owner(old(self).devices@, addr)->0].dev is Ram ==> ({
                let i = owner(old(self).devices@, addr)->0;
                let m = old(self).devices@[i];
                r == ram_read_word(ram_of(m.dev), (addr - m.start) as usize)
                    && final(self).devices@.len() == old(self).devices@.len()
                    && (forall|j: int| 0 <= j < old(self).devices@.len() && j != i ==> final(self).devices@[j] == old(self).devices@[j])
                    && ram_of(final(self).devices@[i].dev) == ram_of(m.dev)
            }),
            owner(old(self).devices@, addr) is Some && old(self).devices@[owner(old(self).devices@, addr)->0].dev is Rom ==> ({
                let i = owner(old(self).devices@, addr)->0;
                let m = old(self).devices@[i];
                r == ram_read_word(rom_of(m.dev), (addr - m.start) as usize)
                    && final(self).devices@.len() == old(self).devices@.len()
                    && (forall|j: int| 0 <= j < old(self).devices@.len() && j != i ==> final(self).devices@[j] == old(self).devices@[j])
                    && rom_of(final(self).devices@[i].dev) == rom_of(m.dev)
            }),
    {
        if let Some(a) = self.clint_forward(addr) {
            return self.route_read_word(a);
        }
        self.route_read_word(addr)
    }
    fn read_half(&mut self, addr: usize) -> (r: Result<u16, Interrupt>)
        ensures
            final(self).devices@.len() == old(self).devices@.len(),
            forall|j: int| 0 <= j < old(self).devices@.len() ==> final(self).devices@[j].start == old(self).devices@[j].start && final(self).devices@[j].end == old(self).devices@[j].end && same_kind(old(self).devices@[j].dev, final(self).devices@[j].dev),
            old(self).wf() ==> final(self).wf(),
            owner(old(self).devices@, addr) is Some && !(old(self).devices@[owner(old(self).devices@, addr)->0].dev is Clint)
                ==> forall|j: int| 0 <= j < old(self).devices@.len() && j != owner(old(self).devices@, addr)->0
                ==> #[trigger] final(self).devices@[j] == old(self).devices@[j],
            owner(old(self).devices@, addr) is None ==> r == Err::<u16, Interrupt>(Interrupt::Unmapped(addr)) && *final(self) == *old(self),
            no_htif(old(self).devices@) ==> r != Err::<u16, Interrupt>(Interrupt::Halt),
            owner(old(self).devices@, addr) is Some && old(self).devices@[owner(old(self).devices@, addr)->0].dev is Ram ==> ({
                let i = owner(old(self).devices@, addr)->0;
                let m = old(self).devices@[i];
                r == ram_read_half(ram_of(m.dev), (addr - m.start) as usize)
                    && final(self).devices@.len() == old(self).devices@.len()
                    && (forall|j: int| 0 <= j < old(self).devices@.len() && j != i ==> final(self).devices@[j] == old(self).devices@[j])
                    && ram_of(final(self).devices@[i].dev) == ram_of(m.dev)
            }),
            owner(old(self).devices@, addr) is Some && old(self).devices@[owner(old(self).devices@, addr)->0].dev is Rom ==> ({
                let i = owner(old(self).devices@, addr)->0;
                let m = old(self).devices@[i];
                r == ram_read_half(rom_of(m.dev), (addr - m.start) as usize)
                    && final(self).devices@.len() == old(self).devices@.len()
                    && (forall|j: int| 0 <= j < old(self).devices@.len() && j != i ==> final(self).devices@[j] == old(self).devices@[j])
                    && rom_of(final(self).devices@[i].dev) == rom_of(m.dev)
            }),
    {
        if let Some(a) = self.clint_forward(addr) {
            return self.route_read_half(a);
        }
        self.route_read_half(addr)
    }
    fn read_byte(&mut self, addr: usize) -> (r: Result<u8, Interrupt>)
        ensures
            final(self).devices@.len() == old(self).devices@.len(),
            forall|j: int| 0 <= j < old(self).devices@.len() ==> final(self).devices@[j].start == old(self).devices@[j].start && final(self).devices@[j].end == old(self).devices@[j].end && same_kind(old(self).devices@[j].dev, final(self).devices@[j].dev),
            old(self).wf() ==> final(self).wf(),
            owner(old(self).devices@, addr) is Some && !(old(self).devices@[owner(old(self).devices@, addr)->0].dev is Clint)
                ==> forall|j: int| 0 <= j < old(self).devices@.len() && j != owner(old(self).devices@, addr)->0
                ==> #[trigger] final(self).devices@[j] == old(self).devices@[j],
            owner(old(self).devices@, addr) is None ==> r == Err::<u8, Interrupt>(Interrupt::Unmapped(addr)) && *final(self) == *old(self),
            no_htif(old(self).devices@) ==> r != Err::<u8, Interrupt>(Interrupt::Halt),
            owner(old(self).devices@, addr) is Some && old(self).devices@[owner(old(self).devices@, addr)->0].dev is Ram ==> ({
                let i = owner(old(self).devices@, addr)->0;
                let m = old(self).devices@[i];
                r == ram_read_byte(ram_of(m.dev), (addr - m.start) as usize)
                    && final(self).devices@.len() == old(self).devices@.len()
                    && (forall|j: int| 0 <= j < old(self).devices@.len() && j != i ==> final(self).devices@[j] == old(self).devices@[j])
                    && ram_of(final(self).devices@[i].dev) == ram_of(m.dev)
            }),
            owner(old(self).devices@, addr) is Some && old(self).devices@[owner(old(self).devices@, addr)->0].dev is Rom ==> ({
                let i = owner(old(self).devices@, addr)->0;
                let m = old(self).devices@[i];
                r == ram_read_byte(rom_of(m.dev), (addr - m.start) as usize)
                    && final(self).devices@.len() == old(self).devices@.len()
                    && (forall|j: int| 0 <= j < old(self).devices@.len() && j != i ==> final(self).devices@[j] == old(self).devices@[j])
                    && rom_of(final(self).devices@[i].dev) == rom_of(m.dev)
            }),
    {
        if let Some(a) = self.clint_forward(addr) {
            return self.route_read_byte(a);
        }
        self.route_read_byte(addr)
    }
}

} // verus!
