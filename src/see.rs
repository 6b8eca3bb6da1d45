use vstd::prelude::*;

use crate::exec::write_reg;
use crate::hart::Hart;
use crate::irq::Interrupt;

verus! {

// The supervisor execution environment: the SBI calls a supervisor makes
// with ECALL. a7 holds the extension, a6 the function, a0..a5 the arguments;
// results return in a0 (error) and a1 (value), or in a0 alone for the legacy
// extensions 0x00..0x0F.

pub const ARG0: u8 = 10;
pub const ARG1: u8 = 11;
pub const FID: u8 = 16;
pub const EID: u8 = 17;

pub const SBI_SPEC_VERSION: u64 = 0x0100_0000;
pub const SBI_IMPL_ID: u64 = 0xFFFF_FFFF;
pub const SBI_IMPL_VERSION: u64 = 1;

pub const EID_BASE: u64 = 0x10;
pub const EID_SRST: u64 = 0x5352_5354;
pub const EID_PUTCHAR: u64 = 0x01;
pub const EID_GETCHAR: u64 = 0x02;
pub const EID_SHUTDOWN: u64 = 0x08;

/// The error codes of the SBI return convention.
#[derive(Clone, Copy, Debug, PartialEq, Eq, Structural)]
pub enum SbiError {
    Failed,
    NotSupported,
    InvalidParam,
    Denied,
    InvalidAddress,
    AlreadyAvailable,
    AlreadyStarted,
    AlreadyStopped,
}

impl SbiError {
    pub open spec fn spec_code(self) -> i64 {
        match self {
            SbiError::Failed => -1i64,
            SbiError::NotSupported => -2i64,
            SbiError::InvalidParam => -3i64,
            SbiError::Denied => -4i64,
            SbiError::InvalidAddress => -5i64,
            SbiError::AlreadyAvailable => -6i64,
            SbiError::AlreadyStarted => -7i64,
            SbiError::AlreadyStopped => -8i64,
        }
    }

    /// The negative code of the error.
    pub fn code(&self) -> (r: i64)
        ensures
            r == self.spec_code(),
    {
        match self {
            SbiError::Failed => -1,
            SbiError::NotSupported => -2,
            SbiError::InvalidParam => -3,
            SbiError::Denied => -4,
            SbiError::InvalidAddress => -5,
            SbiError::AlreadyAvailable => -6,
            SbiError::AlreadyStarted => -7,
            SbiError::AlreadyStopped => -8,
        }
    }
}

/// Whether extension `eid` is available.
pub open spec fn probe_spec(eid: u64) -> u64 {
    if eid == EID_PUTCHAR || eid == EID_GETCHAR || eid == EID_SHUTDOWN || eid == EID_BASE || eid
        == EID_SRST {
        1
    } else {
        0
    }
}

/// The value of a function of the base extension that depends on nothing but
/// its argument.
pub open spec fn base_spec(fid: u64, arg: u64) -> Result<u64, SbiError> {
    if fid == 0 {
        Ok(SBI_SPEC_VERSION)
    } else if fid == 1 {
        Ok(SBI_IMPL_ID)
    } else if fid == 2 {
        Ok(SBI_IMPL_VERSION)
    } else if fid == 3 {
        Ok(probe_spec(arg))
    } else if fid == 4 {
        Ok(0)
    } else if fid == 5 {
        Ok(1)
    } else if fid == 6 {
        Ok(SBI_IMPL_VERSION)
    } else {
        Err(SbiError::NotSupported)
    }
}

pub fn sbi_get_spec_version() -> (r: Result<u64, SbiError>)
    ensures
        r == base_spec(0, 0),
{
    Ok(SBI_SPEC_VERSION)
}

pub fn sbi_get_sbi_impl_id() -> (r: Result<u64, SbiError>)
    ensures
        r == base_spec(1, 0),
{
    Ok(SBI_IMPL_ID)
}

pub fn sbi_get_sbi_impl_version() -> (r: Result<u64, SbiError>)
    ensures
        r == base_spec(2, 0),
{
    Ok(SBI_IMPL_VERSION)
}

pub fn sbi_probe_extension(extension_id: u64) -> (r: Result<u64, SbiError>)
    ensures
        r == base_spec(3, extension_id),
{
    if extension_id == EID_PUTCHAR || extension_id == EID_GETCHAR || extension_id == EID_SHUTDOWN
        || extension_id == EID_BASE || extension_id == EID_SRST {
        Ok(1)
    } else {
        Ok(0)
    }
}

pub fn sbi_get_mvendorid() -> (r: Result<u64, SbiError>)
    ensures
        r == base_spec(4, 0),
{
    Ok(0)
}

pub fn sbi_get_marchid() -> (r: Result<u64, SbiError>)
    ensures
        r == base_spec(5, 0),
{
    Ok(1)
}

pub fn sbi_get_mimpid() -> (r: Result<u64, SbiError>)
    ensures
        r == base_spec(6, 0),
{
    Ok(SBI_IMPL_VERSION)
}

/// The value of a legacy call with extension `eid`: putchar and shutdown
/// give 0, getchar the next console byte or all ones.
pub open spec fn legacy_spec(eid: u64, console_in: Seq<u8>) -> Result<u64, SbiError> {
    if eid == EID_PUTCHAR || eid == EID_SHUTDOWN {
        Ok(0)
    } else if eid == EID_GETCHAR {
        Ok(if console_in.len() > 0 { console_in[0] as u64 } else { u64::MAX })
    } else {
        Err(SbiError::NotSupported)
    }
}

/// The value of a call of the current convention.
pub open spec fn v2_spec(eid: u64, fid: u64, a0: u64, a1: u64) -> Result<u64, SbiError> {
    if eid == EID_BASE {
        base_spec(fid, a0)
    } else if eid == EID_SRST && fid == 0 {
        if !valid_reason(a1) {
            Err(SbiError::InvalidParam)
        } else if a0 <= 2 {
            Ok(0)
        } else {
            Err(SbiError::NotSupported)
        }
    } else {
        Err(SbiError::NotSupported)
    }
}

/// Whether a call of the current convention reboots the hart.
pub open spec fn v2_reboots(eid: u64, fid: u64, a0: u64, a1: u64) -> bool {
    eid == EID_SRST && fid == 0 && valid_reason(a1) && (a0 == 1 || a0 == 2)
}

/// The registers after a legacy call that gave `r`: the value or the error
/// code in a0.
pub open spec fn legacy_regs(regs: Seq<u64>, r: Result<u64, SbiError>) -> Seq<u64> {
    match r {
        Ok(v) => write_reg(regs, ARG0, v),
        Err(e) => write_reg(regs, ARG0, e.spec_code() as u64),
    }
}

/// The registers after a call of the current convention that gave `r`: a0 = 0
/// and a1 = the value, or a0 = the error code.
pub open spec fn v2_regs(regs: Seq<u64>, r: Result<u64, SbiError>) -> Seq<u64> {
    match r {
        Ok(v) => write_reg(write_reg(regs, ARG0, 0), ARG1, v),
        Err(e) => write_reg(regs, ARG0, e.spec_code() as u64),
    }
}

/// Whether `reason` is a reset reason the SRST extension defines.
pub open spec fn valid_reason(reason: u64) -> bool {
    reason == 0 || reason == 1 || (0xE000_0000 <= reason <= 0xFFFF_FFFF)
}

/// Writes the low byte of `value` to the console.
pub fn sbi_console_putchar(hart: &mut Hart, value: u64) -> (r: Result<u64, SbiError>)
    requires
        old(hart).wf(),
    ensures
        final(hart).wf(),
        r == Ok::<u64, SbiError>(0),
        final(hart).console_out@ == old(hart).console_out@.push(value as u8),
        final(hart).console_in@ == old(hart).console_in@,
        final(hart).regs() == old(hart).regs(),
        final(hart).pc == old(hart).pc,
        final(hart).csr@ == old(hart).csr@,
        final(hart).stop == old(hart).stop,
        final(hart).bus.devices@ == old(hart).bus.devices@,
{
    hart.console_out.push(value as u8);
    Ok(0)
}

/// The next console byte, or all ones where none is waiting.
pub fn sbi_console_getchar(hart: &mut Hart) -> (r: Result<u64, SbiError>)
    requires
        old(hart).wf(),
    ensures
        final(hart).wf(),
        old(hart).console_in@.len() > 0 ==> r == Ok::<u64, SbiError>(old(hart).console_in@[0] as u64)
            && final(hart).console_in@ == old(hart).console_in@.drop_first(),
        old(hart).console_in@.len() == 0 ==> r == Ok::<u64, SbiError>(u64::MAX) && final(hart).console_in@
            == old(hart).console_in@,
        final(hart).console_out@ == old(hart).console_out@,
        final(hart).regs() == old(hart).regs(),
        final(hart).pc == old(hart).pc,
        final(hart).csr@ == old(hart).csr@,
        final(hart).stop == old(hart).stop,
        final(hart).bus.devices@ == old(hart).bus.devices@,
{
    if hart.console_in.len() > 0 {
        let b = hart.console_in.remove(0);
        Ok(b as u64)
    } else {
        Ok(u64::MAX)
    }
}

/// Stops the hart.
pub fn sbi_shutdown(hart: &mut Hart) -> (r: Result<u64, SbiError>)
    ensures
        r == Ok::<u64, SbiError>(0),
        final(hart).stop,
        final(hart).regs() == old(hart).regs(),
        final(hart).pc == old(hart).pc,
        final(hart).csr == old(hart).csr,
        final(hart).bus == old(hart).bus,
        final(hart).console_out == old(hart).console_out,
        final(hart).console_in == old(hart).console_in,
{
    hart.stop();
    Ok(0)
}

/// System reset: type 0 shuts down, 1 (cold) and 2 (warm) reboot the hart.
pub fn sbi_system_reset(hart: &mut Hart, reset_type: u64, reset_reason: u64) -> (r: Result<
    u64,
    SbiError,
>)
    requires
        old(hart).wf(),
    ensures
        final(hart).wf(),
        !valid_reason(reset_reason) ==> r == Err::<u64, SbiError>(SbiError::InvalidParam) && *final(hart)
            == *old(hart),
        valid_reason(reset_reason) && reset_type == 0 ==> r == Ok::<u64, SbiError>(0) && final(hart).stop,
        !(valid_reason(reset_reason) && (reset_type == 1 || reset_type == 2)) ==> final(hart).regs()
            == old(hart).regs() && final(hart).pc == old(hart).pc,
        valid_reason(reset_reason) && (reset_type == 1 || reset_type == 2) ==> r == Ok::<u64, SbiError>(0)
            && final(hart).pc == old(hart).start_pc && final(hart).regs() == Seq::new(32, |i: int| 0u64),
        valid_reason(reset_reason) && reset_type > 2 ==> r == Err::<u64, SbiError>(SbiError::NotSupported)
            && *final(hart) == *old(hart),
        final(hart).bus.devices@ == old(hart).bus.devices@,
        final(hart).console_out@ == old(hart).console_out@,
        final(hart).console_in@ == old(hart).console_in@,
        final(hart).counters_same(old(hart)),
{
    if !(reset_reason == 0 || reset_reason == 1 || (0xE000_0000 <= reset_reason && reset_reason
        <= 0xFFFF_FFFF)) {
        return Err(SbiError::InvalidParam);
    }
    if reset_type == 0 {
        hart.stop();
        Ok(0)
    } else if reset_type == 1 || reset_type == 2 {
        hart.reset();
        Ok(0)
    } else {
        Err(SbiError::NotSupported)
    }
}

/// A call of a legacy extension: the result, or the error code, goes to a0.
pub fn call_0_1(hart: &mut Hart) -> (r: Result<u64, SbiError>)
    requires
        old(hart).wf(),
    ensures
        final(hart).wf(),
        final(hart).bus.devices@ == old(hart).bus.devices@,
        final(hart).csr@ == old(hart).csr@,
        final(hart).pc == old(hart).pc,
        r == legacy_spec(old(hart).regs()[EID as int], old(hart).console_in@),
        final(hart).regs() == legacy_regs(old(hart).regs(), r),
        old(hart).regs()[EID as int] == EID_PUTCHAR ==> final(hart).console_out@ == old(hart).console_out@.push(old(hart).regs()[ARG0 as int] as u8),
        old(hart).regs()[EID as int] == EID_GETCHAR && old(hart).console_in@.len() > 0 ==> final(hart).console_in@ == old(hart).console_in@.drop_first(),
        old(hart).regs()[EID as int] == EID_SHUTDOWN ==> final(hart).stop,
        old(hart).regs()[EID as int] != EID_SHUTDOWN ==> final(hart).stop == old(hart).stop,
{
    let func = hart.get_register(EID);
    let result = if func == EID_PUTCHAR {
        let c = hart.get_register(ARG0);
        sbi_console_putchar(hart, c)
    } else if func == EID_GETCHAR {
        sbi_console_getchar(hart)
    } else if func == EID_SHUTDOWN {
        sbi_shutdown(hart)
    } else {
        Err(SbiError::NotSupported)
    };
    match result {
        Ok(value) => {
            hart.set_register(ARG0, value);
            Ok(value)
        },
        Err(error) => {
            hart.set_register(ARG0, error.code() as u64);
            Err(error)
        },
    }
}

/// A call of an extension of the current convention: on success a0 is 0 and
/// a1 the value; on failure a0 holds the error code.
pub fn call_0_2(hart: &mut Hart) -> (r: Result<u64, SbiError>)
    requires
        old(hart).wf(),
    ensures
        final(hart).wf(),
        final(hart).bus.devices@ == old(hart).bus.devices@,
        final(hart).counters_same(old(hart)),
        ({
            let (eid, fid, a0, a1) = (
                old(hart).regs()[EID as int],
                old(hart).regs()[FID as int],
                old(hart).regs()[ARG0 as int],
                old(hart).regs()[ARG1 as int],
            );
            &&& r == v2_spec(eid, fid, a0, a1)
            &&& v2_reboots(eid, fid, a0, a1) ==> final(hart).regs() == Seq::new(32, |i: int| 0u64)
                && final(hart).pc == old(hart).start_pc
            &&& !v2_reboots(eid, fid, a0, a1) ==> final(hart).regs() == v2_regs(old(hart).regs(), r)
                && final(hart).pc == old(hart).pc
            &&& eid == EID_SRST && fid == 0 && valid_reason(a1) && a0 == 0 ==> final(hart).stop
            &&& !(eid == EID_SRST && fid == 0) ==> final(hart).csr@ == old(hart).csr@ && final(hart).stop
                == old(hart).stop
        }),
{
    let eid = hart.get_register(EID);
    let fid = hart.get_register(FID);
    let result = if eid == EID_BASE {
        if fid == 0 {
            sbi_get_spec_version()
        } else if fid == 1 {
            sbi_get_sbi_impl_id()
        } else if fid == 2 {
            sbi_get_sbi_impl_version()
        } else if fid == 3 {
            let ext = hart.get_register(ARG0);
            sbi_probe_extension(ext)
        } else if fid == 4 {
            sbi_get_mvendorid()
        } else if fid == 5 {
            sbi_get_marchid()
        } else if fid == 6 {
            sbi_get_mimpid()
        } else {
            Err(SbiError::NotSupported)
        }
    } else if eid == EID_SRST && fid == 0 {
        let t = hart.get_register(ARG0);
        let reason = hart.get_register(ARG1);
        sbi_system_reset(hart, t, reason)
    } else {
        Err(SbiError::NotSupported)
    };
    match result {
        Ok(value) => {
            hart.set_register(ARG0, 0);
            hart.set_register(ARG1, value);
            proof {
                if v2_reboots(eid, fid, old(hart).regs()[ARG0 as int], old(hart).regs()[ARG1 as int]) {
                    assert(hart.regs() =~= Seq::new(32, |i: int| 0u64));
                }
            }
            Ok(value)
        },
        Err(error) => {
            hart.set_register(ARG0, error.code() as u64);
            Err(error)
        },
    }
}

/// Serves an ECALL: the legacy convention for extensions 0x00..0x0F, the
/// current one for the rest. A failed call is reported as unimplemented; the
/// guest sees the error code in a0 either way.
pub fn call(hart: &mut Hart) -> (r: Result<(), Interrupt>)
    requires
        old(hart).wf(),
    ensures
        final(hart).wf(),
        final(hart).bus.devices@ == old(hart).bus.devices@,
        final(hart).counters_same(old(hart)),
        r is Err ==> r == Err::<(), Interrupt>(Interrupt::Unimplemented),
        ({
            let (eid, fid, a0, a1) = (
                old(hart).regs()[EID as int],
                old(hart).regs()[FID as int],
                old(hart).regs()[ARG0 as int],
                old(hart).regs()[ARG1 as int],
            );
            &&& eid <= 0x0F && eid == EID_PUTCHAR ==> final(hart).console_out@ == old(hart).console_out@.push(
                a0 as u8,
            )
            &&& eid <= 0x0F && eid == EID_GETCHAR && old(hart).console_in@.len() > 0 ==> final(hart).console_in@
                == old(hart).console_in@.drop_first()
            &&& eid <= 0x0F && eid == EID_SHUTDOWN ==> final(hart).stop
            &&& eid <= 0x0F && eid != EID_SHUTDOWN ==> final(hart).stop == old(hart).stop
            &&& eid > 0x0F && eid == EID_SRST && fid == 0 && valid_reason(a1) && a0 == 0 ==> final(hart).stop
            &&& eid > 0x0F && !(eid == EID_SRST && fid == 0) ==> final(hart).stop == old(hart).stop
                && final(hart).csr@ == old(hart).csr@
            &&& eid <= 0x0F ==> (r is Ok <==> legacy_spec(eid, old(hart).console_in@) is Ok) && final(hart).regs() == legacy_regs(old(hart).regs(), legacy_spec(eid, old(hart).console_in@)) && final(hart).pc == old(hart).pc
            &&& eid > 0x0F ==> (r is Ok <==> v2_spec(eid, fid, a0, a1) is Ok)
            &&& eid > 0x0F && !v2_reboots(eid, fid, a0, a1) ==> final(hart).regs() == v2_regs(
                old(hart).regs(),
                v2_spec(eid, fid, a0, a1),
            ) && final(hart).pc == old(hart).pc
            &&& eid > 0x0F && v2_reboots(eid, fid, a0, a1) ==> final(hart).regs() == Seq::new(
                32,
                |i: int| 0u64,
            ) && final(hart).pc == old(hart).start_pc
        }),
{
    if hart.get_register(EID) <= 0x0F {
        match call_0_1(hart) {
            Ok(_) => Ok(()),
            Err(_) => Err(Interrupt::Unimplemented),
        }
    } else {
        match call_0_2(hart) {
            Ok(_) => Ok(()),
            Err(_) => Err(Interrupt::Unimplemented),
        }
    }
}

/// Serves an EBREAK: the hart stops and leaves control to the environment.
pub fn ebreak(hart: &mut Hart)
    ensures
        final(hart).stop,
        final(hart).regs() == old(hart).regs(),
        final(hart).pc == old(hart).pc,
        final(hart).csr == old(hart).csr,
        final(hart).bus == old(hart).bus,
        final(hart).console_out == old(hart).console_out,
        final(hart).console_in == old(hart).console_in,
{
    hart.stop();
}

} // verus!
