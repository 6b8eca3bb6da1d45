use vstd::prelude::*;
use vstd::string::StringSliceAdditionalSpecFns;

verus! {

// ABI names of the integer and floating-point registers.

/// The ABI name of integer register `r`; "U" past x31.
pub open spec fn reg_name(r: u8) -> &'static str {
    match r {
        0 => "zero",
        1 => "ra",
        2 => "sp",
        3 => "gp",
        4 => "tp",
        5 => "t0",
        6 => "t1",
        7 => "t2",
        8 => "s0",
        9 => "s1",
        10 => "a0",
        11 => "a1",
        12 => "a2",
        13 => "a3",
        14 => "a4",
        15 => "a5",
        16 => "a6",
        17 => "a7",
        18 => "s2",
        19 => "s3",
        20 => "s4",
        21 => "s5",
        22 => "s6",
        23 => "s7",
        24 => "s8",
        25 => "s9",
        26 => "s10",
        27 => "s11",
        28 => "t3",
        29 => "t4",
        30 => "t5",
        31 => "t6",
        _ => "U",
    }
}

/// The ABI name of floating-point register `r`; "U" past f31.
pub open spec fn fpreg_name(r: u8) -> &'static str {
    match r {
        0 => "ft0",
        1 => "ft1",
        2 => "ft2",
        3 => "ft3",
        4 => "ft4",
        5 => "ft5",
        6 => "ft6",
        7 => "ft7",
        8 => "fs0",
        9 => "fs1",
        10 => "fa0",
        11 => "fa1",
        12 => "fa2",
        13 => "fa3",
        14 => "fa4",
        15 => "fa5",
        16 => "fa6",
        17 => "fa7",
        18 => "fs2",
        19 => "fs3",
        20 => "fs4",
        21 => "fs5",
        22 => "fs6",
        23 => "fs7",
        24 => "fs8",
        25 => "fs9",
        26 => "fs10",
        27 => "fs11",
        28 => "ft8",
        29 => "ft9",
        30 => "ft10",
        31 => "ft11",
        _ => "U",
    }
}

/// Whether two byte strings are equal.
pub fn bytes_eq(a: &[u8], b: &[u8]) -> (r: bool)
    ensures
        r == (a@ == b@),
{
    if a.len() != b.len() {
        return false;
    }
    let mut k: usize = 0;
    while k < a.len()
        invariant
            a@.len() == b@.len(),
            k <= a@.len(),
            forall|j: int| 0 <= j < k ==> a@[j] == b@[j],
        decreases a@.len() - k,
    {
        if a[k] != b[k] {
            return false;
        }
        k = k + 1;
    }
    assert(a@ =~= b@);
    true
}

/// The ABI name of integer register `num`.
pub fn reg(num: u8) -> (r: &'static str)
    ensures
        r == reg_name(num),
{
    match num {
        0 => "zero",
        1 => "ra",
        2 => "sp",
        3 => "gp",
        4 => "tp",
        5 => "t0",
        6 => "t1",
        7 => "t2",
        8 => "s0",
        9 => "s1",
        10 => "a0",
        11 => "a1",
        12 => "a2",
        13 => "a3",
        14 => "a4",
        15 => "a5",
        16 => "a6",
        17 => "a7",
        18 => "s2",
        19 => "s3",
        20 => "s4",
        21 => "s5",
        22 => "s6",
        23 => "s7",
        24 => "s8",
        25 => "s9",
        26 => "s10",
        27 => "s11",
        28 => "t3",
        29 => "t4",
        30 => "t5",
        31 => "t6",
        _ => "U",
    }
}

/// The integer register with ABI name `name`; 255 where there is none.
pub fn treg(name: &str) -> (r: u8)
    ensures
        r < 32 ==> name.spec_bytes() == reg_name(r).spec_bytes(),
        r >= 32 ==> r == 255 && forall|i: u8| i < 32 ==> name.spec_bytes() != #[trigger] reg_name(i).spec_bytes(),
{
    let wanted = name.as_bytes();
    let mut i: u8 = 0;
    while i < 32
        invariant
            wanted@ == name.spec_bytes(),
            i <= 32,
            forall|j: u8| j < i ==> name.spec_bytes() != #[trigger] reg_name(j).spec_bytes(),
        decreases 32 - i,
    {
        if bytes_eq(wanted, reg(i).as_bytes()) {
            return i;
        }
        i = i + 1;
    }
    255
}

/// The ABI name of floating-point register `num`.
pub fn fpreg(num: u8) -> (r: &'static str)
    ensures
        r == fpreg_name(num),
{
    match num {
        0 => "ft0",
        1 => "ft1",
        2 => "ft2",
        3 => "ft3",
        4 => "ft4",
        5 => "ft5",
        6 => "ft6",
        7 => "ft7",
        8 => "fs0",
        9 => "fs1",
        10 => "fa0",
        11 => "fa1",
        12 => "fa2",
        13 => "fa3",
        14 => "fa4",
        15 => "fa5",
        16 => "fa6",
        17 => "fa7",
        18 => "fs2",
        19 => "fs3",
        20 => "fs4",
        21 => "fs5",
        22 => "fs6",
        23 => "fs7",
        24 => "fs8",
        25 => "fs9",
        26 => "fs10",
        27 => "fs11",
        28 => "ft8",
        29 => "ft9",
        30 => "ft10",
        31 => "ft11",
        _ => "U",
    }
}

/// The floating-point register with ABI name `name`; 255 where there is none.
pub fn fptreg(name: &str) -> (r: u8)
    ensures
        r < 32 ==> name.spec_bytes() == fpreg_name(r).spec_bytes(),
        r >= 32 ==> r == 255 && forall|i: u8| i < 32 ==> name.spec_bytes() != #[trigger] fpreg_name(i).spec_bytes(),
{
    let wanted = name.as_bytes();
    let mut i: u8 = 0;
    while i < 32
        invariant
            wanted@ == name.spec_bytes(),
            i <= 32,
            forall|j: u8| j < i ==> name.spec_bytes() != #[trigger] fpreg_name(j).spec_bytes(),
        decreases 32 - i,
    {
        if bytes_eq(wanted, fpreg(i).as_bytes()) {
            return i;
        }
        i = i + 1;
    }
    255
}

} // verus!
