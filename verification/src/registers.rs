//! The register file of a core: seven registers of 64 bits, read as signed
//! numbers, the four condition flags, and the arithmetic that sets them.

use crate::utils::Reg;
use vstd::prelude::*;

verus! {

/// The condition flags that the last computed value left behind.
#[derive(Copy, Clone, PartialEq, Eq, Debug, Structural)]
pub struct Flags {
    /// The value was zero.
    pub zero: bool,
    /// The value was negative.
    pub sign: bool,
    /// The computation left the range of a signed 64-bit number.
    pub overflow: bool,
    /// Set and cleared together with `overflow`.
    pub carry: bool,
}

impl Flags {
    /// The flags that a value leaves behind: ZERO for zero, SIGN for a
    /// negative value, OVERFLOW and CARRY as the computation overflowed.
    pub open spec fn of_result(value: i64, overflow: bool) -> Flags {
        Flags { zero: value == 0, sign: value < 0, overflow: overflow, carry: overflow }
    }

    /// All four flags clear.
    pub open spec fn cleared() -> Flags {
        Flags { zero: false, sign: false, overflow: false, carry: false }
    }
}

/// The flags of a value are never ZERO and SIGN at once, and OVERFLOW and
/// CARRY are set or clear together.
pub proof fn lemma_flags_of_result(value: i64, overflow: bool)
    ensures
        !(Flags::of_result(value, overflow).zero && Flags::of_result(value, overflow).sign),
        Flags::of_result(value, overflow).zero <==> value == 0,
        Flags::of_result(value, overflow).sign <==> value < 0,
        Flags::of_result(value, overflow).overflow == overflow,
        Flags::of_result(value, overflow).carry == overflow,
{
}

/// The number in the range of `i64` that differs from `x` by a multiple of
/// 2^64: what two's complement arithmetic keeps of `x`.
pub open spec fn wrap(x: int) -> i64 {
    let low = x % 0x1_0000_0000_0000_0000;
    if low > i64::MAX {
        (low - 0x1_0000_0000_0000_0000) as i64
    } else {
        low as i64
    }
}

/// Whether `x` is outside the range of `i64`.
pub open spec fn overflows(x: int) -> bool {
    x < i64::MIN || x > i64::MAX
}

/// The 64 bits of a signed number, read as an unsigned one.
pub open spec fn to_word(value: i64) -> u64 {
    if value >= 0 {
        value as u64
    } else {
        (value + 0x1_0000_0000_0000_0000) as u64
    }
}

/// The 64 bits of an unsigned number, read as a signed one.
pub open spec fn from_word(word: u64) -> i64 {
    wrap(word as int)
}

/// Reading a signed number as a word and back gives the number, and the
/// other way round.
pub proof fn lemma_word_round_trip(value: i64, word: u64)
    ensures
        from_word(to_word(value)) == value,
        to_word(from_word(word)) == word,
{
}

/// The sum of two numbers in two's complement, and whether the true sum
/// does not fit in 64 bits.
pub fn alu_add(a: i64, b: i64) -> (r: (i64, bool))
    ensures
        r.0 == wrap(a + b),
        r.1 == overflows(a + b),
{
    (a.wrapping_add(b), a.checked_add(b).is_none())
}

/// The product of two numbers in two's complement, and whether the true
/// product does not fit in 64 bits.
pub fn alu_mul(a: i64, b: i64) -> (r: (i64, bool))
    ensures
        r.0 == wrap(a * b),
        r.1 == overflows(a * b),
{
    (a.wrapping_mul(b), a.checked_mul(b).is_none())
}

/// Reads the 64 bits of a signed number as an unsigned one.
pub fn word_of(value: i64) -> (word: u64)
    ensures
        word == to_word(value),
{
    if value >= 0 {
        value as u64
    } else {
        ((value - i64::MIN) as u64) + 0x8000_0000_0000_0000
    }
}

/// Reads the 64 bits of an unsigned number as a signed one.
pub fn value_of(word: u64) -> (value: i64)
    ensures
        value == from_word(word),
{
    if word <= 0x7fff_ffff_ffff_ffff {
        word as i64
    } else {
        ((word - 0x8000_0000_0000_0000) as i64) + i64::MIN
    }
}

/// What a register file holds: the value of each register and the flags.
pub struct RegisterFileView {
    pub eax: i64,
    pub ebx: i64,
    pub ecx: i64,
    pub edx: i64,
    pub esp: i64,
    pub ebp: i64,
    pub isp: i64,
    pub flags: Flags,
}

impl RegisterFileView {
    /// The value of a register.
    pub open spec fn read(self, reg: Reg) -> i64 {
        match reg {
            Reg::EAX => self.eax,
            Reg::EBX => self.ebx,
            Reg::ECX => self.ecx,
            Reg::EDX => self.edx,
            Reg::ESP => self.esp,
            Reg::EBP => self.ebp,
            Reg::ISP => self.isp,
        }
    }

    /// The same registers with one of them replaced. The flags stay.
    pub open spec fn write(self, reg: Reg, value: i64) -> RegisterFileView {
        match reg {
            Reg::EAX => RegisterFileView { eax: value, ..self },
            Reg::EBX => RegisterFileView { ebx: value, ..self },
            Reg::ECX => RegisterFileView { ecx: value, ..self },
            Reg::EDX => RegisterFileView { edx: value, ..self },
            Reg::ESP => RegisterFileView { esp: value, ..self },
            Reg::EBP => RegisterFileView { ebp: value, ..self },
            Reg::ISP => RegisterFileView { isp: value, ..self },
        }
    }

    /// The same registers with the flags that a value leaves behind.
    pub open spec fn apply_result(self, value: i64, overflow: bool) -> RegisterFileView {
        RegisterFileView { flags: Flags::of_result(value, overflow), ..self }
    }

    /// The same registers with all flags clear.
    pub open spec fn reset_flags(self) -> RegisterFileView {
        RegisterFileView { flags: Flags::cleared(), ..self }
    }

    /// Every register zero and every flag clear.
    pub open spec fn zeroed() -> RegisterFileView {
        RegisterFileView {
            eax: 0,
            ebx: 0,
            ecx: 0,
            edx: 0,
            esp: 0,
            ebp: 0,
            isp: 0,
            flags: Flags::cleared(),
        }
    }
}

/// The registers and flags of one core. They are reached through `read`,
/// `write` and the flag functions only.
#[derive(Clone, Debug)]
pub struct RegisterFile {
    eax: i64,
    ebx: i64,
    ecx: i64,
    edx: i64,
    esp: i64,
    ebp: i64,
    isp: i64,
    flags: Flags,
}

impl View for RegisterFile {
    type V = RegisterFileView;

    closed spec fn view(&self) -> RegisterFileView {
        RegisterFileView {
            eax: self.eax,
            ebx: self.ebx,
            ecx: self.ecx,
            edx: self.edx,
            esp: self.esp,
            ebp: self.ebp,
            isp: self.isp,
            flags: self.flags,
        }
    }
}

impl RegisterFile {
    /// A register file with every register zero and every flag clear.
    pub fn new() -> (regs: RegisterFile)
        ensures
            regs@ == RegisterFileView::zeroed(),
    {
        RegisterFile {
            eax: 0,
            ebx: 0,
            ecx: 0,
            edx: 0,
            esp: 0,
            ebp: 0,
            isp: 0,
            flags: Flags { zero: false, sign: false, overflow: false, carry: false },
        }
    }

    /// The value of a register.
    pub fn read(&self, reg: Reg) -> (value: i64)
        ensures
            value == self@.read(reg),
    {
        match reg {
            Reg::EAX => self.eax,
            Reg::EBX => self.ebx,
            Reg::ECX => self.ecx,
            Reg::EDX => self.edx,
            Reg::ESP => self.esp,
            Reg::EBP => self.ebp,
            Reg::ISP => self.isp,
        }
    }

    /// Replaces the value of a register. The other registers and the flags
    /// stay as they are.
    pub fn write(&mut self, reg: Reg, value: i64)
        ensures
            final(self)@ == old(self)@.write(reg, value),
    {
        match reg {
            Reg::EAX => self.eax = value,
            Reg::EBX => self.ebx = value,
            Reg::ECX => self.ecx = value,
            Reg::EDX => self.edx = value,
            Reg::ESP => self.esp = value,
            Reg::EBP => self.ebp = value,
            Reg::ISP => self.isp = value,
        };
    }

    /// The four flags.
    pub fn flags(&self) -> (flags: Flags)
        ensures
            flags == self@.flags,
    {
        self.flags
    }

    /// Sets the flags that a computed value leaves behind: ZERO if the
    /// value is zero, SIGN if it is negative, and OVERFLOW and CARRY if the
    /// computation overflowed. All four are set or cleared; the registers
    /// stay as they are.
    pub fn apply_result(&mut self, value: i64, overflow: bool)
        ensures
            final(self)@ == old(self)@.apply_result(value, overflow),
    {
        self.flags = Flags { zero: value == 0, sign: value < 0, overflow: overflow, carry: overflow };
    }

    /// Clears all four flags.
    pub fn reset_flags(&mut self)
        ensures
            final(self)@ == old(self)@.reset_flags(),
    {
        self.flags = Flags { zero: false, sign: false, overflow: false, carry: false };
    }
}

} // verus!
