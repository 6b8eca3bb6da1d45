use vstd::prelude::*;

verus! {

pub const NUM_CSRS: usize = 4096;

// Supervisor registers
pub const SSTATUS: usize = 0x100;
pub const SIE: usize = 0x104;
pub const STVEC: usize = 0x105;
pub const SSCRATCH: usize = 0x140;
pub const SEPC: usize = 0x141;
pub const SCAUSE: usize = 0x142;
pub const STVAL: usize = 0x143;
pub const SIP: usize = 0x144;
pub const SATP: usize = 0x180;

// Machine registers
pub const MSTATUS: usize = 0x300;
pub const MISA: usize = 0x301;
pub const MEDELEG: usize = 0x302;
pub const MIDELEG: usize = 0x303;
pub const MIE: usize = 0x304;
pub const MTVEC: usize = 0x305;
pub const MCOUNTEREN: usize = 0x306;
pub const MSCRATCH: usize = 0x340;
pub const MEPC: usize = 0x341;
pub const MCAUSE: usize = 0x342;
pub const MTVAL: usize = 0x343;
pub const MIP: usize = 0x344;
pub const MCYCLE: usize = 0xB00;
pub const MINSTRET: usize = 0xB02;
pub const MVENDORID: usize = 0xF11;
pub const MARCHID: usize = 0xF12;
pub const MIMPID: usize = 0xF13;
pub const MHARTID: usize = 0xF14;

/// MXL = 2 (64-bit) and the base integer ISA.
pub const MISA_RV64I: u64 = 0x8000_0000_0000_0100;

/// How a CSR answers reads and writes.
#[derive(Clone, Copy, Debug, PartialEq, Eq, Structural)]
pub enum Policy {
    /// Holds any 64-bit value.
    Raw,
    /// Holds a value that is legalised as `mtvec` is.
    Warl,
    /// Reads its value; writes are ignored.
    ReadOnly,
    /// A counter the hart advances; instructions read it and cannot write it.
    Counter,
    /// Reads as zero; writes are ignored.
    Ignored,
}

pub open spec fn policy_spec(n: usize) -> Policy {
    if n == MTVEC {
        Policy::Warl
    } else if n == MISA || n == MVENDORID || n == MARCHID || n == MIMPID || n == MHARTID || n
        == 0xF15 {
        Policy::ReadOnly
    } else if n == MCYCLE || n == MINSTRET {
        Policy::Counter
    } else if n == MSTATUS || n == MIE || n == MIP || n == MEPC || n == MCAUSE || n == MTVAL
        || n == MSCRATCH || n == SATP || n == MEDELEG || n == MIDELEG || n == MCOUNTEREN || n
        == STVEC || (SSCRATCH <= n <= STVAL) || n == 0x310 || n == 0x30A || n == 0x31A || n == 0x320 || n == 0x34A || n == 0x34B || (0x323
        <= n <= 0x33F) || (0x3A0 <= n <= 0x3EF) || (0x7A0 <= n <= 0x7A4) || (0x7B0 <= n
        <= 0x7B3) {
        Policy::Raw
    } else {
        Policy::Ignored
    }
}

/// The access policy of CSR `n`.
pub fn policy(n: usize) -> (r: Policy)
    ensures
        r == policy_spec(n),
{
    if n == MTVEC {
        Policy::Warl
    } else if n == MISA || n == MVENDORID || n == MARCHID || n == MIMPID || n == MHARTID || n
        == 0xF15 {
        Policy::ReadOnly
    } else if n == MCYCLE || n == MINSTRET {
        Policy::Counter
    } else if n == MSTATUS || n == MIE || n == MIP || n == MEPC || n == MCAUSE || n == MTVAL
        || n == MSCRATCH || n == SATP || n == MEDELEG || n == MIDELEG || n == MCOUNTEREN || n
        == STVEC || (SSCRATCH <= n && n <= STVAL) || n == 0x310 || n == 0x30A || n == 0x31A || n == 0x320 || n == 0x34A || n == 0x34B || (0x323
        <= n && n <= 0x33F) || (0x3A0 <= n && n <= 0x3EF) || (0x7A0 <= n && n <= 0x7A4) || (0x7B0
        <= n && n <= 0x7B3) {
        Policy::Raw
    } else {
        Policy::Ignored
    }
}

/// The legal form of an `mtvec` value: the base keeps its 4-byte alignment
/// and a mode of 2 or more becomes 0 (direct).
pub open spec fn legal_mtvec(v: u64) -> u64 {
    if v & 3 < 2 {
        v
    } else {
        v & !3u64
    }
}

/// The name of CSR `n`, or "U" where it has none here.
pub open spec fn csr_name(n: usize) -> &'static str {
    match n {
        0x001 => "fflags",
        0x002 => "frm",
        0x003 => "fcsr",
        0xC00 => "cycle",
        0xC01 => "time",
        0xC02 => "instret",
        0x100 => "sstatus",
        0x104 => "sie",
        0x105 => "stvec",
        0x106 => "scounteren",
        0x140 => "sscratch",
        0x141 => "sepc",
        0x142 => "scause",
        0x143 => "stval",
        0x144 => "sip",
        0x180 => "satp",
        0xF11 => "mvendorid",
        0xF12 => "marchid",
        0xF13 => "mimpid",
        0xF14 => "mhartid",
        0xF15 => "mconfigptr",
        0x300 => "mstatus",
        0x301 => "misa",
        0x302 => "medeleg",
        0x303 => "mideleg",
        0x304 => "mie",
        0x305 => "mtvec",
        0x306 => "mcounteren",
        0x310 => "mstatush",
        0x340 => "mscratch",
        0x341 => "mepc",
        0x342 => "mcause",
        0x343 => "mtval",
        0x344 => "mip",
        0x34A => "minst",
        0x34B => "mtval2",
        0x30A => "menvcfg",
        0x31A => "menvcfgh",
        0x3A0 => "pmpcfg0",
        0x3B0 => "pmpaddr0",
        0xB00 => "mcycle",
        0xB02 => "minstret",
        0x320 => "mcountinhibit",
        0x7A0 => "tselect",
        0x7A1 => "tdata1",
        0x7A2 => "tdata2",
        0x7A3 => "tdata3",
        0x7B0 => "dcsr",
        0x7B1 => "dpc",
        0x7B2 => "dscratch0",
        0x7B3 => "dscratch1",
        _ => "U",
    }
}

/// The control and status registers of a hart: 4096 slots, each read and
/// written through the policy of its number.
pub struct Csr {
    csrs: Vec<u64>,
}

impl View for Csr {
    type V = Seq<u64>;

    closed spec fn view(&self) -> Seq<u64> {
        self.csrs@
    }
}

impl Csr {
    pub open spec fn wf(&self) -> bool {
        self@.len() == NUM_CSRS
    }

    /// What an instruction reads from CSR `n`.
    pub open spec fn read_spec(&self, n: usize) -> u64 {
        if n >= NUM_CSRS {
            0
        } else {
            match policy_spec(n) {
                Policy::Ignored => 0,
                Policy::Warl => legal_mtvec(self@[n as int]),
                _ => self@[n as int],
            }
        }
    }

    /// The registers after an instruction writes `v` to CSR `n`.
    pub open spec fn write_spec(&self, n: usize, v: u64) -> Seq<u64> {
        if n >= NUM_CSRS {
            self@
        } else {
            match policy_spec(n) {
                Policy::Raw => self@.update(n as int, v),
                Policy::Warl => self@.update(n as int, legal_mtvec(v)),
                _ => self@,
            }
        }
    }

    /// The registers of hart `id` at reset.
    pub open spec fn new_spec(id: u64) -> Seq<u64> {
        Seq::new(NUM_CSRS as nat, |i: int| 0u64).update(MISA as int, MISA_RV64I).update(
            MIMPID as int,
            1,
        ).update(MHARTID as int, id)
    }

    /// The registers of hart `id` at reset: `misa` says RV64I, `mimpid` is 1,
    /// `mhartid` is `id`, all else zero.
    pub fn new(id: u64) -> (r: Csr)
        ensures
            r.wf(),
            r@ == Csr::new_spec(id),
    {
        let mut csrs = vec![0u64; NUM_CSRS];
        csrs[MISA] = MISA_RV64I;
        csrs[MIMPID] = 1;
        csrs[MHARTID] = id;
        let r = Csr { csrs };
        assert(r@ =~= Seq::new(NUM_CSRS as nat, |i: int| 0u64).update(MISA as int, MISA_RV64I).update(
            MIMPID as int,
            1,
        ).update(MHARTID as int, id));
        r
    }

    /// The name of CSR `csr`, or "U" where it has none here.
    pub fn name(csr: usize) -> (r: &'static str)
        ensures
            r == csr_name(csr),
    {
        match csr {
            0x001 => "fflags",
            0x002 => "frm",
            0x003 => "fcsr",
            0xC00 => "cycle",
            0xC01 => "time",
            0xC02 => "instret",
            0x100 => "sstatus",
            0x104 => "sie",
            0x105 => "stvec",
            0x106 => "scounteren",
            0x140 => "sscratch",
            0x141 => "sepc",
            0x142 => "scause",
            0x143 => "stval",
            0x144 => "sip",
            0x180 => "satp",
            0xF11 => "mvendorid",
            0xF12 => "marchid",
            0xF13 => "mimpid",
            0xF14 => "mhartid",
            0xF15 => "mconfigptr",
            0x300 => "mstatus",
            0x301 => "misa",
            0x302 => "medeleg",
            0x303 => "mideleg",
            0x304 => "mie",
            0x305 => "mtvec",
            0x306 => "mcounteren",
            0x310 => "mstatush",
            0x340 => "mscratch",
            0x341 => "mepc",
            0x342 => "mcause",
            0x343 => "mtval",
            0x344 => "mip",
            0x34A => "minst",
            0x34B => "mtval2",
            0x30A => "menvcfg",
            0x31A => "menvcfgh",
            0x3A0 => "pmpcfg0",
            0x3B0 => "pmpaddr0",
            0xB00 => "mcycle",
            0xB02 => "minstret",
            0x320 => "mcountinhibit",
            0x7A0 => "tselect",
            0x7A1 => "tdata1",
            0x7A2 => "tdata2",
            0x7A3 => "tdata3",
            0x7B0 => "dcsr",
            0x7B1 => "dpc",
            0x7B2 => "dscratch0",
            0x7B3 => "dscratch1",
            _ => "U",
        }
    }

    /// A read of CSR `n` by an instruction.
    pub fn read(&self, n: usize) -> (r: u64)
        requires
            self.wf(),
        ensures
            r == self.read_spec(n),
    {
        if n >= NUM_CSRS {
            return 0;
        }
        match policy(n) {
            Policy::Ignored => 0,
            Policy::Warl => self.read_mtvec(n),
            _ => self.csrs[n],
        }
    }

    /// A write of `v` to CSR `n` by an instruction.
    pub fn write(&mut self, n: usize, v: u64)
        requires
            old(self).wf(),
        ensures
            final(self).wf(),
            final(self)@ == old(self).write_spec(n, v),
    {
        if n >= NUM_CSRS {
            return;
        }
        match policy(n) {
            Policy::Raw => self.csrs[n] = v,
            Policy::Warl => {
                let legal = if v & 3 < 2 { v } else { v & !3u64 };
                self.csrs[n] = legal;
            },
            _ => {},
        }
    }

    /// The stored value of CSR `n`, whatever its policy.
    pub fn read_any(&self, n: usize) -> (r: u64)
        requires
            self.wf(),
            n < NUM_CSRS,
        ensures
            r == self@[n as int],
    {
        self.csrs[n]
    }

    /// Stores `v` in CSR `n`, whatever its policy: the hart's own updates of
    /// trap state and counters go this way.
    pub fn write_any(&mut self, n: usize, v: u64)
        requires
            old(self).wf(),
            n < NUM_CSRS,
        ensures
            final(self).wf(),
            final(self)@ == old(self)@.update(n as int, v),
    {
        self.csrs[n] = v;
    }

    fn read_mtvec(&self, n: usize) -> (r: u64)
        requires
            self.wf(),
            n < NUM_CSRS,
        ensures
            r == legal_mtvec(self@[n as int]),
    {
        let v = self.csrs[n];
        if v & 3 < 2 {
            v
        } else {
            v & !3u64
        }
    }
}

} // verus!
