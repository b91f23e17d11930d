//! The instruction codec: the 64-bit word of an instruction and back.
//!
//! Counted from the most significant bit, a word holds the opcode family in
//! bits 63 to 60, the jump kind in bits 59 to 56, the code of the first
//! register in bits 55 to 52, and then either the code of the second register
//! in bits 51 to 48 or an address in bits 51 to 0.

use crate::utils::{
    DecodeError, Instruction, Opcode, Reg, ADDR_LIMIT, FAMILY_UNIT, KIND_UNIT, REG1_UNIT,
    REG2_UNIT,
};
use vstd::prelude::*;

verus! {

/// The opcode family of a word: bits 63 to 60.
pub open spec fn family_field(w: u64) -> int {
    w as int / FAMILY_UNIT as int
}

/// The jump kind of a word: bits 59 to 56.
pub open spec fn kind_field(w: u64) -> int {
    (w as int / KIND_UNIT as int) % 16
}

/// The code of the first register of a word: bits 55 to 52.
pub open spec fn reg1_field(w: u64) -> int {
    (w as int / REG1_UNIT as int) % 16
}

/// The code of the second register of a word: bits 51 to 48.
pub open spec fn reg2_field(w: u64) -> int {
    (w as int / REG2_UNIT as int) % 16
}

/// The address of a word: bits 51 to 0.
pub open spec fn addr_field(w: u64) -> int {
    w as int % ADDR_LIMIT as int
}

/// The code of a register operand, and 0 where there is none.
pub open spec fn reg_code_or_zero(reg: Option<Reg>) -> int {
    match reg {
        Some(r) => r.code(),
        None => 0,
    }
}

/// An address operand, and 0 where there is none.
pub open spec fn addr_or_zero(addr: Option<u64>) -> int {
    match addr {
        Some(a) => a as int,
        None => 0,
    }
}

/// The word that stands for an instruction: each operand at its place, and
/// zero bits wherever the instruction has no operand.
pub open spec fn encode_spec(i: Instruction) -> int {
    i.spec_opcode().family() * FAMILY_UNIT + i.spec_opcode().kind() * KIND_UNIT
        + reg_code_or_zero(i.spec_reg1()) * REG1_UNIT + reg_code_or_zero(i.spec_reg2())
        * REG2_UNIT + addr_or_zero(i.spec_addr())
}

/// The instruction that a word stands for.
///
/// The family and, for a jump, the kind select the opcode. The registers
/// that the opcode names must have codes of registers. Bits that the opcode
/// gives no meaning to are not looked at.
pub open spec fn decode_spec(w: u64) -> Result<Instruction, DecodeError> {
    match Opcode::from_codes(family_field(w), kind_field(w)) {
        None => Err(DecodeError::UnknownOpcode),
        Some(opcode) => {
            let reg1 = Reg::from_code(reg1_field(w));
            let reg2 = Reg::from_code(reg2_field(w));
            if opcode.has_reg1() && reg1 is None {
                Err(DecodeError::UnknownRegister)
            } else if opcode.has_reg2() && reg2 is None {
                Err(DecodeError::UnknownRegister)
            } else {
                Ok(
                    Instruction::assemble(
                        opcode,
                        reg1.unwrap_or(Reg::EAX),
                        reg2.unwrap_or(Reg::EAX),
                        addr_field(w) as u64,
                    ),
                )
            }
        },
    }
}

/// Shifting and masking a word gives its fields.
proof fn lemma_fields_by_shift(w: u64)
    ensures
        (w >> 60) as int == family_field(w),
        ((w >> 56) & 0xf) as int == kind_field(w),
        ((w >> 52) & 0xf) as int == reg1_field(w),
        ((w >> 48) & 0xf) as int == reg2_field(w),
        (w & 0x000f_ffff_ffff_ffff) as int == addr_field(w),
        w >> 60 <= 15,
{
    assert(w >> 60 == w / 0x1000_0000_0000_0000) by (bit_vector);
    assert((w >> 56) & 0xf == (w / 0x0100_0000_0000_0000) % 16) by (bit_vector);
    assert((w >> 52) & 0xf == (w / 0x0010_0000_0000_0000) % 16) by (bit_vector);
    assert((w >> 48) & 0xf == (w / 0x0001_0000_0000_0000) % 16) by (bit_vector);
    assert(w & 0x000f_ffff_ffff_ffff == w % 0x0010_0000_0000_0000) by (bit_vector);
    assert(w >> 60 <= 15) by (bit_vector);
}

/// Fields that do not overlap are put together by shifting and or-ing.
proof fn lemma_word_by_shift(family: u64, kind: u64, reg1: u64, reg2: u64, addr: u64)
    requires
        family < 16,
        kind < 16,
        reg1 < 16,
        reg2 < 16,
        addr < ADDR_LIMIT,
        reg2 == 0 || addr == 0,
    ensures
        ((family << 60) | (kind << 56) | (reg1 << 52) | (reg2 << 48) | addr) as int == family
            * FAMILY_UNIT + kind * KIND_UNIT + reg1 * REG1_UNIT + reg2 * REG2_UNIT + addr,
{
    assert(((family << 60) | (kind << 56) | (reg1 << 52) | (reg2 << 48) | addr) == family
        * 0x1000_0000_0000_0000 + kind * 0x0100_0000_0000_0000 + reg1 * 0x0010_0000_0000_0000
        + reg2 * 0x0001_0000_0000_0000 + addr) by (bit_vector)
        requires
            family < 16,
            kind < 16,
            reg1 < 16,
            reg2 < 16,
            addr < 0x0010_0000_0000_0000,
            reg2 == 0 || addr == 0,
    ;
}

/// Decoding the word of a well-formed instruction gives the instruction
/// back, and the word fits in 64 bits.
pub proof fn lemma_decode_encode(i: Instruction)
    requires
        i.wf(),
    ensures
        0 <= encode_spec(i) <= u64::MAX,
        decode_spec(encode_spec(i) as u64) == Ok::<Instruction, DecodeError>(i),
{
}

/// A word whose opcode family is one of 8 to 15 stands for no instruction.
pub proof fn lemma_decode_rejects_high_family(w: u64)
    requires
        family_field(w) >= 8,
    ensures
        decode_spec(w) == Err::<Instruction, DecodeError>(DecodeError::UnknownOpcode),
{
}

/// Gives the 64-bit word of an instruction.
pub fn encode(i: Instruction) -> (w: u64)
    requires
        i.wf(),
    ensures
        w == encode_spec(i),
        decode_spec(w) == Ok::<Instruction, DecodeError>(i),
{
    let codes = i.opcode().to_codes();
    let family: u64 = codes.0 as u64;
    let kind: u64 = codes.1 as u64;
    let reg1: u64 = match i.reg1() {
        Some(r) => r.to_u8() as u64,
        None => 0,
    };
    let reg2: u64 = match i.reg2() {
        Some(r) => r.to_u8() as u64,
        None => 0,
    };
    let addr: u64 = match i.addr() {
        Some(a) => a,
        None => 0,
    };
    proof {
        lemma_word_by_shift(family, kind, reg1, reg2, addr);
        lemma_decode_encode(i);
    }
    (family << 60) | (kind << 56) | (reg1 << 52) | (reg2 << 48) | addr
}

/// Reads a 64-bit word as an instruction.
///
/// Fails with `UnknownOpcode` when the family is not one of 0 to 7, or is 7
/// with a jump kind that is not one of 1 to 3, and with `UnknownRegister`
/// when a register that the opcode names has a code that is not one of 0 to
/// 6.
pub fn decode(w: u64) -> (r: Result<Instruction, DecodeError>)
    ensures
        r == decode_spec(w),
        family_field(w) >= 8 ==> r == Err::<Instruction, DecodeError>(DecodeError::UnknownOpcode),
        r matches Ok(i) ==> i.wf(),
{
    proof {
        lemma_fields_by_shift(w);
    }
    let family: u8 = (w >> 60) as u8;
    let kind: u8 = ((w >> 56) & 0xf) as u8;
    let code1: u8 = ((w >> 52) & 0xf) as u8;
    let code2: u8 = ((w >> 48) & 0xf) as u8;
    let addr: u64 = w & 0x000f_ffff_ffff_ffff;
    let opcode = match Opcode::from_u8(family, kind) {
        Some(opcode) => opcode,
        None => { return Err(DecodeError::UnknownOpcode); },
    };
    match opcode {
        Opcode::Nop => Ok(Instruction::Nop),
        Opcode::Jz => Ok(Instruction::JumpIfZero(addr)),
        Opcode::Jgz => Ok(Instruction::JumpIfPositive(addr)),
        Opcode::Jlz => Ok(Instruction::JumpIfNegative(addr)),
        _ => {
            let reg1 = match Reg::from_u8(code1) {
                Some(reg) => reg,
                None => { return Err(DecodeError::UnknownRegister); },
            };
            match opcode {
                Opcode::Ld => Ok(Instruction::Load(reg1, addr)),
                Opcode::Sav => Ok(Instruction::Store(addr, reg1)),
                Opcode::Push => Ok(Instruction::Push(reg1)),
                Opcode::Pop => Ok(Instruction::Pop(reg1)),
                _ => {
                    let reg2 = match Reg::from_u8(code2) {
                        Some(reg) => reg,
                        None => { return Err(DecodeError::UnknownRegister); },
                    };
                    if opcode == Opcode::Add {
                        Ok(Instruction::Add(reg1, reg2))
                    } else {
                        Ok(Instruction::Mul(reg1, reg2))
                    }
                },
            }
        },
    }
}

} // verus!
