use emulator::codec::{decode, encode};
use emulator::utils::{
    get_nth_byte, DecodeError, Instruction, InstructionBuilder, Opcode, Reg, ADDR_LIMIT,
};

const REGS: [Reg; 7] = [Reg::EAX, Reg::EBX, Reg::ECX, Reg::EDX, Reg::ESP, Reg::EBP, Reg::ISP];

#[test]
fn nth_byte() {
    let number = 0x01_02_03_04_05_06_07_08u64;
    println!("numbers: {:#x}", number);
    for i in 0..8 {
        println!("i = {}, get_nth_byte() = {}", i, get_nth_byte(number, i as usize));
        assert_eq!(get_nth_byte(number, i as usize), (i + 1) as u8);
    }
}

#[test]
fn nth_byte_of_extreme_words() {
    for i in 0..8 {
        assert_eq!(get_nth_byte(0, i), 0);
        assert_eq!(get_nth_byte(u64::MAX, i), 0xff);
    }
    assert_eq!(get_nth_byte(0xab00_0000_0000_00cd, 0), 0xab);
    assert_eq!(get_nth_byte(0xab00_0000_0000_00cd, 7), 0xcd);
}

#[test]
fn register_codes_are_zero_to_six() {
    for (code, reg) in REGS.iter().enumerate() {
        assert_eq!(reg.to_u8(), code as u8);
        assert_eq!(Reg::from_u8(code as u8), Some(*reg));
    }
    for code in 7..=255u8 {
        assert_eq!(Reg::from_u8(code), None);
    }
}

#[test]
fn opcode_codes_are_family_and_kind() {
    assert_eq!(Opcode::Nop.to_codes(), (0, 0));
    assert_eq!(Opcode::Add.to_codes(), (1, 0));
    assert_eq!(Opcode::Mul.to_codes(), (2, 0));
    assert_eq!(Opcode::Ld.to_codes(), (3, 0));
    assert_eq!(Opcode::Sav.to_codes(), (4, 0));
    assert_eq!(Opcode::Push.to_codes(), (5, 0));
    assert_eq!(Opcode::Pop.to_codes(), (6, 0));
    assert_eq!(Opcode::Jz.to_codes(), (7, 1));
    assert_eq!(Opcode::Jgz.to_codes(), (7, 2));
    assert_eq!(Opcode::Jlz.to_codes(), (7, 3));
    assert_eq!(Opcode::from_u8(7, 0), None);
    assert_eq!(Opcode::from_u8(7, 4), None);
    assert_eq!(Opcode::from_u8(8, 1), None);
    assert_eq!(Opcode::from_u8(3, 9), Some(Opcode::Ld));
}

#[test]
fn encode_gives_the_documented_words() {
    assert_eq!(encode(Instruction::Nop), 0x0000_0000_0000_0000);
    assert_eq!(encode(Instruction::Add(Reg::EBX, Reg::ECX)), 0x1012_0000_0000_0000);
    assert_eq!(encode(Instruction::Mul(Reg::ISP, Reg::EBP)), 0x2065_0000_0000_0000);
    assert_eq!(encode(Instruction::Load(Reg::EDX, 0x1234)), 0x3030_0000_0000_1234);
    assert_eq!(encode(Instruction::Store(0xf_ffff_ffff_ffff, Reg::ESP)), 0x404f_ffff_ffff_ffff);
    assert_eq!(encode(Instruction::Push(Reg::EBX)), 0x5010_0000_0000_0000);
    assert_eq!(encode(Instruction::Pop(Reg::ECX)), 0x6020_0000_0000_0000);
    assert_eq!(encode(Instruction::JumpIfZero(7)), 0x7100_0000_0000_0007);
    assert_eq!(encode(Instruction::JumpIfPositive(8)), 0x7200_0000_0000_0008);
    assert_eq!(encode(Instruction::JumpIfNegative(9)), 0x7300_0000_0000_0009);
}

#[test]
fn decode_inverts_encode_for_every_kind_of_instruction() {
    let addrs = [0u64, 1, 0xffff, 0x0008_0000_0000_0000, ADDR_LIMIT - 1];
    let mut all = vec![Instruction::Nop];
    for r1 in REGS.iter() {
        all.push(Instruction::Push(*r1));
        all.push(Instruction::Pop(*r1));
        for r2 in REGS.iter() {
            all.push(Instruction::Add(*r1, *r2));
            all.push(Instruction::Mul(*r1, *r2));
        }
        for a in addrs.iter() {
            all.push(Instruction::Load(*r1, *a));
            all.push(Instruction::Store(*a, *r1));
        }
    }
    for a in addrs.iter() {
        all.push(Instruction::JumpIfZero(*a));
        all.push(Instruction::JumpIfPositive(*a));
        all.push(Instruction::JumpIfNegative(*a));
    }
    for i in all {
        assert_eq!(decode(encode(i)), Ok(i));
    }
}

#[test]
fn decode_rejects_the_families_eight_to_fifteen() {
    for family in 8..16u64 {
        for rest in [0u64, 1, 0x0123_4567_89ab_cdef, 0x0fff_ffff_ffff_ffff] {
            assert_eq!(decode((family << 60) | rest), Err(DecodeError::UnknownOpcode));
        }
    }
}

#[test]
fn decode_rejects_unknown_jump_kinds() {
    for kind in [0u64, 4, 5, 9, 15] {
        assert_eq!(decode((7 << 60) | (kind << 56) | 3), Err(DecodeError::UnknownOpcode));
    }
}

#[test]
fn decode_rejects_unknown_registers() {
    for code in 7..16u64 {
        assert_eq!(decode((1 << 60) | (code << 52)), Err(DecodeError::UnknownRegister));
        assert_eq!(decode((2 << 60) | (code << 48)), Err(DecodeError::UnknownRegister));
        assert_eq!(decode((3 << 60) | (code << 52) | 5), Err(DecodeError::UnknownRegister));
        assert_eq!(decode((4 << 60) | (code << 52) | 5), Err(DecodeError::UnknownRegister));
        assert_eq!(decode((5 << 60) | (code << 52)), Err(DecodeError::UnknownRegister));
        assert_eq!(decode((6 << 60) | (code << 52)), Err(DecodeError::UnknownRegister));
    }
}

#[test]
fn decode_does_not_look_at_bits_without_meaning() {
    assert_eq!(decode(0x0fff_ffff_ffff_ffff), Ok(Instruction::Nop));
    assert_eq!(decode(0x1f12_0000_0000_beef), Ok(Instruction::Add(Reg::EBX, Reg::ECX)));
    assert_eq!(decode(0x50f0_0000_0000_0000), Err(DecodeError::UnknownRegister));
    assert_eq!(decode(0x5019_0000_0000_0000), Ok(Instruction::Push(Reg::EBX)));
    assert_eq!(decode(0x71f0_0000_0000_0002), Ok(Instruction::JumpIfZero(2)));
    // In a load, bits 51 to 48 belong to the address, not to a register.
    assert_eq!(decode(0x301f_0000_0000_0000), Ok(Instruction::Load(Reg::EBX, 0xf_0000_0000_0000)));
}

#[test]
fn new_instruction_is_nop() {
    assert_eq!(Instruction::new(), Instruction::Nop);
    assert_eq!(encode(Instruction::new()), 0);
}

#[test]
fn accessors_give_opcode_and_operands() {
    let add = Instruction::Add(Reg::EBX, Reg::EDX);
    assert_eq!(add.opcode(), Opcode::Add);
    assert_eq!(add.reg1(), Some(Reg::EBX));
    assert_eq!(add.reg2(), Some(Reg::EDX));
    assert_eq!(add.addr(), None);
    let store = Instruction::Store(77, Reg::ESP);
    assert_eq!(store.opcode(), Opcode::Sav);
    assert_eq!(store.reg1(), Some(Reg::ESP));
    assert_eq!(store.reg2(), None);
    assert_eq!(store.addr(), Some(77));
    let jump = Instruction::JumpIfNegative(12);
    assert_eq!(jump.opcode(), Opcode::Jlz);
    assert_eq!(jump.reg1(), None);
    assert_eq!(jump.reg2(), None);
    assert_eq!(jump.addr(), Some(12));
    assert_eq!(Instruction::Nop.opcode(), Opcode::Nop);
    assert_eq!(Instruction::Nop.reg1(), None);
    assert_eq!(Instruction::Nop.addr(), None);
    assert_eq!(Instruction::Pop(Reg::ISP).reg1(), Some(Reg::ISP));
    assert_eq!(Instruction::Load(Reg::EAX, 3).addr(), Some(3));
    assert_eq!(Instruction::Mul(Reg::EAX, Reg::EBP).reg2(), Some(Reg::EBP));
    assert_eq!(Instruction::JumpIfZero(1).opcode(), Opcode::Jz);
    assert_eq!(Instruction::JumpIfPositive(1).opcode(), Opcode::Jgz);
    assert_eq!(Instruction::Push(Reg::EAX).opcode(), Opcode::Push);
}

#[test]
fn builder_starts_with_nop() {
    assert_eq!(InstructionBuilder::new().finalize(), Instruction::Nop);
}

#[test]
fn builder_takes_the_operands_of_the_opcode() {
    let mut b = InstructionBuilder::new();
    b.set_reg1(Reg::EBX).set_reg2(Reg::ECX).set_addr(42);
    assert_eq!(b.finalize(), Instruction::Nop);
    assert_eq!(b.set_opcode(Opcode::Add).finalize(), Instruction::Add(Reg::EBX, Reg::ECX));
    assert_eq!(b.set_opcode(Opcode::Mul).finalize(), Instruction::Mul(Reg::EBX, Reg::ECX));
    assert_eq!(b.set_opcode(Opcode::Ld).finalize(), Instruction::Load(Reg::EBX, 42));
    assert_eq!(b.set_opcode(Opcode::Sav).finalize(), Instruction::Store(42, Reg::EBX));
    assert_eq!(b.set_opcode(Opcode::Push).finalize(), Instruction::Push(Reg::EBX));
    assert_eq!(b.set_opcode(Opcode::Pop).finalize(), Instruction::Pop(Reg::EBX));
    assert_eq!(b.set_opcode(Opcode::Jz).finalize(), Instruction::JumpIfZero(42));
    assert_eq!(b.set_opcode(Opcode::Jgz).finalize(), Instruction::JumpIfPositive(42));
    assert_eq!(b.set_opcode(Opcode::Jlz).finalize(), Instruction::JumpIfNegative(42));
}

#[test]
fn builder_setters_replace_one_part_only() {
    let mut b = InstructionBuilder::new();
    b.set_opcode(Opcode::Ld).set_reg1(Reg::EDX).set_addr(9);
    b.set_addr(ADDR_LIMIT - 1);
    assert_eq!(b.finalize(), Instruction::Load(Reg::EDX, ADDR_LIMIT - 1));
    b.set_reg1(Reg::EBP);
    assert_eq!(b.finalize(), Instruction::Load(Reg::EBP, ADDR_LIMIT - 1));
    assert_eq!(encode(b.finalize()), 0x305f_ffff_ffff_ffff);
}
