use emulator::codec::encode;
use emulator::parser::{parse_line, parse_reg, ParseError, Parser};
use emulator::utils::{Instruction, InstructionBuilder, Opcode, Reg, ADDR_LIMIT};
use rand::Rng;

fn rand_reg() -> (&'static str, Reg, u64) {
    let mut rng = rand::thread_rng();
    match rng.gen_range(0, 7) as usize {
        0 => ("EAX", Reg::EAX, 0x00_00_00_00_00_00_00_00u64),
        1 => ("EBX", Reg::EBX, 0x00_10_00_00_00_00_00_00u64),
        2 => ("ECX", Reg::ECX, 0x00_20_00_00_00_00_00_00u64),
        3 => ("EDX", Reg::EDX, 0x00_30_00_00_00_00_00_00u64),
        4 => ("ESP", Reg::ESP, 0x00_40_00_00_00_00_00_00u64),
        5 => ("EBP", Reg::EBP, 0x00_50_00_00_00_00_00_00u64),
        6 => ("ISP", Reg::ISP, 0x00_60_00_00_00_00_00_00u64),
        _ => panic!("no such register"),
    }
}

fn rand_addr() -> u64 {
    let mut rng = rand::thread_rng();
    rng.gen_range(0, 0x00_0f_ff_ff_ff_ff_ff_ff)
}

fn rand_instr() -> (String, Instruction, u64) {
    let mut rng = rand::thread_rng();
    let (s_reg1, enum_reg1, opt_reg1) = rand_reg();
    let (s_reg2, enum_reg2, opt_reg) = rand_reg();
    // The second register stands four bits to the right of the first.
    let opt_reg2 = opt_reg >> 4;
    let addr = rand_addr();
    match rng.gen_range(0, 10) as usize {
        0 => (
            format!("ADD {} {}", s_reg1, s_reg2),
            Instruction::Add(enum_reg1, enum_reg2),
            0x10_00_00_00_00_00_00_00u64 | opt_reg1 | opt_reg2,
        ),
        1 => (
            format!("MUL {} {}", s_reg1, s_reg2),
            Instruction::Mul(enum_reg1, enum_reg2),
            0x20_00_00_00_00_00_00_00u64 | opt_reg1 | opt_reg2,
        ),
        2 => (
            format!("LD {} {}", s_reg1, addr),
            Instruction::Load(enum_reg1, addr),
            0x30_00_00_00_00_00_00_00u64 | opt_reg1 | addr,
        ),
        3 => (
            format!("SAV {} {}", addr, s_reg1),
            Instruction::Store(addr, enum_reg1),
            0x40_00_00_00_00_00_00_00u64 | opt_reg1 | addr,
        ),
        4 => (
            format!("PUSH {}", s_reg1),
            Instruction::Push(enum_reg1),
            0x50_00_00_00_00_00_00_00u64 | opt_reg1,
        ),
        5 => (
            format!("POP {}", s_reg1),
            Instruction::Pop(enum_reg1),
            0x60_00_00_00_00_00_00_00u64 | opt_reg1,
        ),
        6 => (format!("JZ {}", addr), Instruction::JumpIfZero(addr), 0x71_00_00_00_00_00_00_00u64 | addr),
        7 => (
            format!("JGZ {}", addr),
            Instruction::JumpIfPositive(addr),
            0x72_00_00_00_00_00_00_00u64 | addr,
        ),
        8 => (
            format!("JLZ {}", addr),
            Instruction::JumpIfNegative(addr),
            0x73_00_00_00_00_00_00_00u64 | addr,
        ),
        9 => ("NOP".to_string(), Instruction::Nop, 0x00_00_00_00_00_00_00_00u64),
        _ => panic!("no such instruction"),
    }
}

#[test]
fn converting_strings_to_regs() {
    let vec = vec!["EAX", "EBX", "ECX", "EDX", "ESP", "EBP", "ISP"];
    let mut iter = vec.iter();
    assert!(Ok(Reg::EAX) == iter.next().unwrap().parse());
    assert!(Ok(Reg::EBX) == iter.next().unwrap().parse());
    assert!(Ok(Reg::ECX) == iter.next().unwrap().parse());
    assert!(Ok(Reg::EDX) == iter.next().unwrap().parse());
    assert!(Ok(Reg::ESP) == iter.next().unwrap().parse());
    assert!(Ok(Reg::EBP) == iter.next().unwrap().parse());
    assert!(Ok(Reg::ISP) == iter.next().unwrap().parse());
}

#[test]
fn converting_strings_to_instructions() {
    let s = "ADD EBX EBX".to_string();
    assert!(
        Ok(InstructionBuilder::new()
            .set_opcode(Opcode::Add)
            .set_reg1(Reg::EBX)
            .set_reg2(Reg::EBX)
            .finalize())
            == s.parse()
    );
}

#[test]
fn converting_file_to_programm() {
    let mut inst_vec: Vec<Instruction> = Vec::new();
    let mut word_vec: Vec<u64> = Vec::new();
    let mut inst_string = String::new();

    for _ in 0..100 {
        let (s, i, w) = rand_instr();
        println!("{}\n{:#X}\n{:#X}\n", s, encode(s.parse::<Instruction>().unwrap()), w);
        inst_string = inst_string + &s;
        inst_string.push('\n');

        inst_vec.push(i);
        word_vec.push(w);
    }

    let mut p = Parser::new();
    p.read_from_text(&inst_string).unwrap();
    println!("{:#?}", p);
    let iter = p.into_instructions().zip(inst_vec.into_iter().zip(word_vec.into_iter()));

    let mut count = 0;
    for (i1, (i2, w)) in iter {
        println!("{:?} | {:?}", i1, i2);
        assert_eq!(i1, i2);
        assert_eq!(encode(i1), w);
        count += 1;
    }
    assert_eq!(count, 100);
}

#[test]
fn unknown_register_is_an_error_with_the_word() {
    assert_eq!(parse_reg("EAY"), Err(ParseError::UnkownReg("EAY".to_string())));
    assert_eq!(parse_reg("eax"), Err(ParseError::UnkownReg("eax".to_string())));
    assert_eq!(parse_reg(""), Err(ParseError::UnkownReg(String::new())));
    assert_eq!(parse_reg(" EAX"), Err(ParseError::UnkownReg(" EAX".to_string())));
    assert_eq!(parse_reg("EAXX"), Err(ParseError::UnkownReg("EAXX".to_string())));
    assert_eq!("E".parse::<Reg>(), Err(ParseError::UnkownReg("E".to_string())));
}

#[test]
fn every_mnemonic_is_read() {
    assert_eq!(parse_line("NOP"), Ok(Instruction::Nop));
    assert_eq!(parse_line("ADD EAX ISP"), Ok(Instruction::Add(Reg::EAX, Reg::ISP)));
    assert_eq!(parse_line("MUL EBP ESP"), Ok(Instruction::Mul(Reg::EBP, Reg::ESP)));
    assert_eq!(parse_line("LD ECX 12"), Ok(Instruction::Load(Reg::ECX, 12)));
    assert_eq!(parse_line("SAV 12 EDX"), Ok(Instruction::Store(12, Reg::EDX)));
    assert_eq!(parse_line("PUSH EBX"), Ok(Instruction::Push(Reg::EBX)));
    assert_eq!(parse_line("POP EBX"), Ok(Instruction::Pop(Reg::EBX)));
    assert_eq!(parse_line("JZ 0"), Ok(Instruction::JumpIfZero(0)));
    assert_eq!(parse_line("JGZ 1"), Ok(Instruction::JumpIfPositive(1)));
    assert_eq!(parse_line("JLZ 2"), Ok(Instruction::JumpIfNegative(2)));
}

#[test]
fn white_space_separates_words() {
    assert_eq!(parse_line("  ADD\tEAX \u{a0} EBX\r"), Ok(Instruction::Add(Reg::EAX, Reg::EBX)));
    assert_eq!(parse_line("\u{3000}NOP\u{2003}"), Ok(Instruction::Nop));
    assert_eq!(parse_line("LD\u{b}EAX\u{c}7\u{85}"), Ok(Instruction::Load(Reg::EAX, 7)));
    // U+200B is no white space: it is part of the word.
    assert_eq!(
        parse_line("NOP\u{200b}"),
        Err(ParseError::UnkownInstruction("NOP\u{200b}".to_string()))
    );
}

#[test]
fn words_after_the_third_are_not_looked_at() {
    assert_eq!(parse_line("ADD EAX EBX ECX"), Ok(Instruction::Add(Reg::EAX, Reg::EBX)));
    assert_eq!(parse_line("LD EAX 5 garbage here"), Ok(Instruction::Load(Reg::EAX, 5)));
}

#[test]
fn mnemonic_must_take_the_operands_given() {
    assert_eq!(parse_line("NOP EAX"), Err(ParseError::UnkownInstruction("NOP".to_string())));
    assert_eq!(parse_line("ADD EAX"), Err(ParseError::UnkownInstruction("ADD".to_string())));
    assert_eq!(parse_line("ADD"), Err(ParseError::UnkownInstruction("ADD".to_string())));
    assert_eq!(parse_line("PUSH EAX EBX"), Err(ParseError::UnkownInstruction("PUSH".to_string())));
    assert_eq!(parse_line("JZ"), Err(ParseError::UnkownInstruction("JZ".to_string())));
    assert_eq!(parse_line("JZ 1 2"), Err(ParseError::UnkownInstruction("JZ".to_string())));
}

#[test]
fn unknown_mnemonic_is_an_error_with_the_word() {
    assert_eq!(parse_line("FOO"), Err(ParseError::UnkownInstruction("FOO".to_string())));
    assert_eq!(parse_line("add EAX EBX"), Err(ParseError::UnkownInstruction("add".to_string())));
    assert_eq!(parse_line("  SUB EAX EBX"), Err(ParseError::UnkownInstruction("SUB".to_string())));
    assert_eq!(parse_line("ADDX EAX EBX"), Err(ParseError::UnkownInstruction("ADDX".to_string())));
    assert_eq!(parse_line("AD EAX EBX"), Err(ParseError::UnkownInstruction("AD".to_string())));
}

#[test]
fn empty_line_is_an_unknown_instruction_without_a_word() {
    assert_eq!(parse_line(""), Err(ParseError::UnkownInstruction(String::new())));
    assert_eq!(parse_line("  \t "), Err(ParseError::UnkownInstruction(String::new())));
}

#[test]
fn first_operand_that_cannot_be_read_is_the_error() {
    assert_eq!(parse_line("ADD EAX FOO"), Err(ParseError::UnkownReg("FOO".to_string())));
    assert_eq!(parse_line("ADD FOO BAR"), Err(ParseError::UnkownReg("FOO".to_string())));
    assert_eq!(parse_line("LD 12 EAX"), Err(ParseError::UnkownReg("12".to_string())));
    assert_eq!(parse_line("LD EAX EBX"), Err(ParseError::InvalidMemAddress("EBX".to_string())));
    assert_eq!(parse_line("SAV EAX 12"), Err(ParseError::InvalidMemAddress("EAX".to_string())));
    assert_eq!(parse_line("SAV 12 13"), Err(ParseError::UnkownReg("13".to_string())));
    assert_eq!(parse_line("SAV x y"), Err(ParseError::InvalidMemAddress("x".to_string())));
    assert_eq!(parse_line("POP 4"), Err(ParseError::UnkownReg("4".to_string())));
    assert_eq!(parse_line("JLZ EAX"), Err(ParseError::InvalidMemAddress("EAX".to_string())));
}

#[test]
fn addresses_are_decimal_numbers_below_two_to_the_52() {
    assert_eq!(parse_line("JZ 4503599627370495"), Ok(Instruction::JumpIfZero(ADDR_LIMIT - 1)));
    assert_eq!(
        parse_line("JZ 4503599627370496"),
        Err(ParseError::InvalidMemAddress("4503599627370496".to_string()))
    );
    assert_eq!(
        parse_line("JZ 99999999999999999999999999999999"),
        Err(ParseError::InvalidMemAddress("99999999999999999999999999999999".to_string()))
    );
    assert_eq!(parse_line("JZ +17"), Ok(Instruction::JumpIfZero(17)));
    assert_eq!(parse_line("JZ 000000000000000000000000000017"), Ok(Instruction::JumpIfZero(17)));
    assert_eq!(parse_line("JZ +"), Err(ParseError::InvalidMemAddress("+".to_string())));
    assert_eq!(parse_line("JZ ++1"), Err(ParseError::InvalidMemAddress("++1".to_string())));
    assert_eq!(parse_line("JZ -1"), Err(ParseError::InvalidMemAddress("-1".to_string())));
    assert_eq!(parse_line("JZ 0x10"), Err(ParseError::InvalidMemAddress("0x10".to_string())));
    assert_eq!(parse_line("JZ 1_000"), Err(ParseError::InvalidMemAddress("1_000".to_string())));
    assert_eq!(parse_line("JZ 12a"), Err(ParseError::InvalidMemAddress("12a".to_string())));
    assert_eq!(
        parse_line("JZ \u{663}"),
        Err(ParseError::InvalidMemAddress("\u{663}".to_string()))
    );
}

#[test]
fn parser_gathers_lines_in_order() {
    let mut p = Parser::new();
    assert_eq!(p.read_line("LD EAX 0"), Ok(()));
    assert_eq!(p.read_line("ADD EAX EAX"), Ok(()));
    assert_eq!(p.read_line("bogus"), Err(ParseError::UnkownInstruction("bogus".to_string())));
    assert_eq!(p.read_line("SAV 1 EAX"), Ok(()));
    let program: Vec<Instruction> = p.into_instructions().collect();
    assert_eq!(
        program,
        vec![
            Instruction::Load(Reg::EAX, 0),
            Instruction::Add(Reg::EAX, Reg::EAX),
            Instruction::Store(1, Reg::EAX)
        ]
    );
}

#[test]
fn new_parser_holds_no_instruction() {
    assert_eq!(Parser::new().into_instructions().count(), 0);
}

#[test]
fn parser_reads_a_text_line_by_line() {
    let mut p = Parser::new();
    assert_eq!(p.read_from_text("LD EAX 0\r\nADD EAX EAX\nSAV 1 EAX\nNOP"), Ok(()));
    assert_eq!(p.read_from_text(""), Ok(()));
    assert_eq!(p.read_from_text("PUSH EBX\n"), Ok(()));
    let program: Vec<Instruction> = p.into_instructions().collect();
    assert_eq!(
        program,
        vec![
            Instruction::Load(Reg::EAX, 0),
            Instruction::Add(Reg::EAX, Reg::EAX),
            Instruction::Store(1, Reg::EAX),
            Instruction::Nop,
            Instruction::Push(Reg::EBX)
        ]
    );
}

#[test]
fn text_with_a_bad_line_leaves_the_parser_as_it_was() {
    let mut p = Parser::new();
    assert_eq!(p.read_line("NOP"), Ok(()));
    assert_eq!(
        p.read_from_text("ADD EAX EBX\nLD EAX nowhere\nFOO\n"),
        Err(ParseError::InvalidMemAddress("nowhere".to_string()))
    );
    assert_eq!(
        p.read_from_text("ADD EAX EBX\n\nNOP\n"),
        Err(ParseError::UnkownInstruction(String::new()))
    );
    assert_eq!(
        p.read_from_text("NOP\n  JZ   EAX  "),
        Err(ParseError::InvalidMemAddress("EAX".to_string()))
    );
    let program: Vec<Instruction> = p.into_instructions().collect();
    assert_eq!(program, vec![Instruction::Nop]);
}

#[test]
fn parsing_through_from_str_is_parsing_a_line() {
    assert_eq!("LD ECX 12".parse::<Instruction>(), Ok(Instruction::Load(Reg::ECX, 12)));
    assert_eq!("  NOP ".parse::<Instruction>(), Ok(Instruction::Nop));
    assert_eq!(
        "FOO EAX".parse::<Instruction>(),
        Err(ParseError::UnkownInstruction("FOO".to_string()))
    );
    assert_eq!(
        "JZ 4503599627370496".parse::<Instruction>(),
        Err(ParseError::InvalidMemAddress("4503599627370496".to_string()))
    );
    assert_eq!("PUSH R1".parse::<Instruction>(), Err(ParseError::UnkownReg("R1".to_string())));
    assert_eq!("".parse::<Instruction>(), Err(ParseError::UnkownInstruction(String::new())));
    assert_eq!("ISP".parse::<Reg>(), Ok(Reg::ISP));
    assert_eq!("ISP ".parse::<Reg>(), Err(ParseError::UnkownReg("ISP ".to_string())));
}
