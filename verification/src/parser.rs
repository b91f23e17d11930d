//! The assembler: it reads lines of mnemonics as instructions.
//!
//! A line holds a mnemonic and, after it, the operands that the mnemonic
//! takes, separated by white space: `ADD EAX EBX`, `LD EAX 12`, `SAV 12 EAX`,
//! `PUSH EAX`, `JZ 7`, `NOP`.

use crate::text::{address_value, chars_of, next_word, parse_address, skip_spaces, skip_word};
use crate::utils::{Instruction, InstructionBuilder, Opcode, Reg, ADDR_LIMIT};
use vstd::prelude::*;
use vstd::std_specs::iter::IteratorSpec;
use vstd::string::*;

verus! {

/// Why a line is not an instruction. Each error holds the word that was
/// refused.
#[derive(PartialEq, Debug, Clone)]
pub enum ParseError {
    /// The first word is no mnemonic, or not one that takes as many operands
    /// as the line gives. On an empty line the word is empty.
    UnkownInstruction(String),
    /// An operand that should name a register names none.
    UnkownReg(String),
    /// An operand that should be an address is no decimal number below 2^52.
    InvalidMemAddress(String),
}

/// A `ParseError` in contracts: the same error over the characters of
/// the word.
pub enum ParseErrorView {
    UnkownInstruction(Seq<char>),
    UnkownReg(Seq<char>),
    InvalidMemAddress(Seq<char>),
}

impl View for ParseError {
    type V = ParseErrorView;

    open spec fn view(&self) -> ParseErrorView {
        match self {
            ParseError::UnkownInstruction(word) => ParseErrorView::UnkownInstruction(word@),
            ParseError::UnkownReg(word) => ParseErrorView::UnkownReg(word@),
            ParseError::InvalidMemAddress(word) => ParseErrorView::InvalidMemAddress(word@),
        }
    }
}

/// The register that a word names.
pub open spec fn reg_named(word: Seq<char>) -> Option<Reg> {
    if word == "EAX"@ {
        Some(Reg::EAX)
    } else if word == "EBX"@ {
        Some(Reg::EBX)
    } else if word == "ECX"@ {
        Some(Reg::ECX)
    } else if word == "EDX"@ {
        Some(Reg::EDX)
    } else if word == "ESP"@ {
        Some(Reg::ESP)
    } else if word == "EBP"@ {
        Some(Reg::EBP)
    } else if word == "ISP"@ {
        Some(Reg::ISP)
    } else {
        None
    }
}

/// The opcode that a word is the mnemonic of.
pub open spec fn mnemonic(word: Seq<char>) -> Option<Opcode> {
    if word == "ADD"@ {
        Some(Opcode::Add)
    } else if word == "MUL"@ {
        Some(Opcode::Mul)
    } else if word == "LD"@ {
        Some(Opcode::Ld)
    } else if word == "SAV"@ {
        Some(Opcode::Sav)
    } else if word == "PUSH"@ {
        Some(Opcode::Push)
    } else if word == "POP"@ {
        Some(Opcode::Pop)
    } else if word == "JZ"@ {
        Some(Opcode::Jz)
    } else if word == "JGZ"@ {
        Some(Opcode::Jgz)
    } else if word == "JLZ"@ {
        Some(Opcode::Jlz)
    } else if word == "NOP"@ {
        Some(Opcode::Nop)
    } else {
        None
    }
}

/// How many operands the mnemonic of an opcode takes.
pub open spec fn operand_count(opcode: Opcode) -> int {
    match opcode {
        Opcode::Nop => 0,
        Opcode::Push | Opcode::Pop | Opcode::Jz | Opcode::Jgz | Opcode::Jlz => 1,
        Opcode::Add | Opcode::Mul | Opcode::Ld | Opcode::Sav => 2,
    }
}

/// The instruction that a mnemonic and two operands stand for. An operand
/// that the line does not give is empty.
///
/// The mnemonic must take the operands that are given, where two stand for
/// two or more. The operands are then read in their order, and the first
/// that cannot be read is the error.
pub open spec fn parse_words(name: Seq<char>, first: Seq<char>, second: Seq<char>) -> Result<
    Instruction,
    ParseErrorView,
> {
    let given: int = if first.len() == 0 {
        0
    } else if second.len() == 0 {
        1
    } else {
        2
    };
    match mnemonic(name) {
        Some(opcode) if operand_count(opcode) == given => {
            let no_reg = Reg::EAX;
            match opcode {
                Opcode::Nop => Ok(Instruction::Nop),
                Opcode::Add | Opcode::Mul => if reg_named(first) is None {
                    Err(ParseErrorView::UnkownReg(first))
                } else if reg_named(second) is None {
                    Err(ParseErrorView::UnkownReg(second))
                } else {
                    Ok(
                        Instruction::assemble(
                            opcode,
                            reg_named(first).unwrap(),
                            reg_named(second).unwrap(),
                            0,
                        ),
                    )
                },
                Opcode::Ld => if reg_named(first) is None {
                    Err(ParseErrorView::UnkownReg(first))
                } else if address_value(second) is None {
                    Err(ParseErrorView::InvalidMemAddress(second))
                } else {
                    Ok(Instruction::Load(reg_named(first).unwrap(), address_value(second).unwrap()))
                },
                Opcode::Sav => if address_value(first) is None {
                    Err(ParseErrorView::InvalidMemAddress(first))
                } else if reg_named(second) is None {
                    Err(ParseErrorView::UnkownReg(second))
                } else {
                    Ok(
                        Instruction::Store(
                            address_value(first).unwrap(),
                            reg_named(second).unwrap(),
                        ),
                    )
                },
                Opcode::Push | Opcode::Pop => if reg_named(first) is None {
                    Err(ParseErrorView::UnkownReg(first))
                } else {
                    Ok(Instruction::assemble(opcode, reg_named(first).unwrap(), no_reg, 0))
                },
                Opcode::Jz | Opcode::Jgz | Opcode::Jlz => if address_value(first) is None {
                    Err(ParseErrorView::InvalidMemAddress(first))
                } else {
                    Ok(
                        Instruction::assemble(
                            opcode,
                            no_reg,
                            no_reg,
                            address_value(first).unwrap(),
                        ),
                    )
                },
            }
        },
        _ => Err(ParseErrorView::UnkownInstruction(name)),
    }
}

/// The instruction that a line stands for: that of its first three words.
/// Words are separated by white space, words after the third are not looked
/// at.
pub open spec fn parse_line_spec(line: Seq<char>) -> Result<Instruction, ParseErrorView> {
    let name_start = skip_spaces(line, 0);
    let name_end = skip_word(line, name_start);
    let first_start = skip_spaces(line, name_end);
    let first_end = skip_word(line, first_start);
    let second_start = skip_spaces(line, first_end);
    let second_end = skip_word(line, second_start);
    parse_words(
        line.subrange(name_start, name_end),
        line.subrange(first_start, first_end),
        line.subrange(second_start, second_end),
    )
}

/// Where the line that starts at `i` ends: at the first line feed at or
/// after `i`, or at the end of the text.
pub open spec fn line_end(text: Seq<char>, i: int) -> int
    decreases text.len() - i,
{
    if 0 <= i < text.len() && text[i] != '\n' {
        line_end(text, i + 1)
    } else {
        i
    }
}

/// A line ends at or after its start, and within the text.
pub proof fn lemma_line_end_bounds(text: Seq<char>, i: int)
    requires
        0 <= i <= text.len(),
    ensures
        i <= line_end(text, i) <= text.len(),
    decreases text.len() - i,
{
    if i < text.len() && text[i] != '\n' {
        lemma_line_end_bounds(text, i + 1);
    }
}

/// The instructions that the lines of a text stand for, from the line that
/// starts at `from` on, or the error of the first line that is no
/// instruction. A line feed ends a line; after the last one no line follows.
pub open spec fn parse_text_spec(text: Seq<char>, from: int) -> Result<
    Seq<Instruction>,
    ParseErrorView,
>
    decreases text.len() + 1 - from,
    via parse_text_spec_terminates
{
    if 0 <= from < text.len() {
        let end = line_end(text, from);
        match parse_line_spec(text.subrange(from, end)) {
            Err(e) => Err(e),
            Ok(instruction) => match parse_text_spec(text, end + 1) {
                Err(e) => Err(e),
                Ok(rest) => Ok(seq![instruction] + rest),
            },
        }
    } else {
        Ok(Seq::empty())
    }
}

/// The next line starts after the end of this one, which is not before its
/// start: the text that is left gets shorter.
#[via_fn]
proof fn parse_text_spec_terminates(text: Seq<char>, from: int) {
    if 0 <= from < text.len() {
        lemma_line_end_bounds(text, from);
    }
}

/// Whether the characters from `from` up to `to` spell `name`.
fn word_is(chars: &Vec<char>, from: usize, to: usize, name: &str) -> (same: bool)
    requires
        from <= to <= chars.len(),
    ensures
        same == (chars@.subrange(from as int, to as int) == name@),
{
    let expected = chars_of(name);
    if to - from != expected.len() {
        return false;
    }
    let mut i: usize = 0;
    while i < expected.len()
        invariant
            from <= to <= chars.len(),
            to - from == expected.len(),
            i <= expected.len(),
            expected@ == name@,
            forall|j: int| 0 <= j < i ==> chars@[from + j] == expected@[j],
        decreases expected.len() - i,
    {
        if chars[from + i] != expected[i] {
            assert(chars@.subrange(from as int, to as int)[i as int] != name@[i as int]);
            return false;
        }
        i += 1;
    }
    assert(chars@.subrange(from as int, to as int) =~= name@);
    true
}

/// The register that the characters from `from` up to `to` name.
fn lookup_reg(chars: &Vec<char>, from: usize, to: usize) -> (reg: Option<Reg>)
    requires
        from <= to <= chars.len(),
    ensures
        reg == reg_named(chars@.subrange(from as int, to as int)),
{
    if word_is(chars, from, to, "EAX") {
        Some(Reg::EAX)
    } else if word_is(chars, from, to, "EBX") {
        Some(Reg::EBX)
    } else if word_is(chars, from, to, "ECX") {
        Some(Reg::ECX)
    } else if word_is(chars, from, to, "EDX") {
        Some(Reg::EDX)
    } else if word_is(chars, from, to, "ESP") {
        Some(Reg::ESP)
    } else if word_is(chars, from, to, "EBP") {
        Some(Reg::EBP)
    } else if word_is(chars, from, to, "ISP") {
        Some(Reg::ISP)
    } else {
        None
    }
}

/// The opcode that the characters from `from` up to `to` are the mnemonic
/// of.
fn lookup_mnemonic(chars: &Vec<char>, from: usize, to: usize) -> (opcode: Option<Opcode>)
    requires
        from <= to <= chars.len(),
    ensures
        opcode == mnemonic(chars@.subrange(from as int, to as int)),
{
    if word_is(chars, from, to, "ADD") {
        Some(Opcode::Add)
    } else if word_is(chars, from, to, "MUL") {
        Some(Opcode::Mul)
    } else if word_is(chars, from, to, "LD") {
        Some(Opcode::Ld)
    } else if word_is(chars, from, to, "SAV") {
        Some(Opcode::Sav)
    } else if word_is(chars, from, to, "PUSH") {
        Some(Opcode::Push)
    } else if word_is(chars, from, to, "POP") {
        Some(Opcode::Pop)
    } else if word_is(chars, from, to, "JZ") {
        Some(Opcode::Jz)
    } else if word_is(chars, from, to, "JGZ") {
        Some(Opcode::Jgz)
    } else if word_is(chars, from, to, "JLZ") {
        Some(Opcode::Jlz)
    } else if word_is(chars, from, to, "NOP") {
        Some(Opcode::Nop)
    } else {
        None
    }
}

/// How many operands the mnemonic of an opcode takes.
fn operands_of(opcode: Opcode) -> (count: u8)
    ensures
        count == operand_count(opcode),
{
    match opcode {
        Opcode::Nop => 0,
        Opcode::Push | Opcode::Pop | Opcode::Jz | Opcode::Jgz | Opcode::Jlz => 1,
        Opcode::Add | Opcode::Mul | Opcode::Ld | Opcode::Sav => 2,
    }
}

/// What stands in the way of reading a line.
#[derive(Copy, Clone)]
enum Fault {
    Instruction,
    Reg,
    MemAddress,
}

/// A word of a line that was refused: why, and from where up to where in
/// the line it stands.
struct Refusal {
    fault: Fault,
    from: usize,
    to: usize,
}

impl Refusal {
    /// The error that tells of this refusal in a line.
    spec fn error_in(self, line: Seq<char>) -> ParseErrorView {
        let word = line.subrange(self.from as int, self.to as int);
        match self.fault {
            Fault::Instruction => ParseErrorView::UnkownInstruction(word),
            Fault::Reg => ParseErrorView::UnkownReg(word),
            Fault::MemAddress => ParseErrorView::InvalidMemAddress(word),
        }
    }

    /// The error that tells of this refusal, given the refused word.
    fn into_error(self, word: String) -> (e: ParseError)
        ensures
            e@ == match self.fault {
                Fault::Instruction => ParseErrorView::UnkownInstruction(word@),
                Fault::Reg => ParseErrorView::UnkownReg(word@),
                Fault::MemAddress => ParseErrorView::InvalidMemAddress(word@),
            },
    {
        match self.fault {
            Fault::Instruction => ParseError::UnkownInstruction(word),
            Fault::Reg => ParseError::UnkownReg(word),
            Fault::MemAddress => ParseError::InvalidMemAddress(word),
        }
    }
}

/// Reads the characters from `from` up to `to` of a line as a register.
fn reg_operand(chars: &Vec<char>, from: usize, to: usize) -> (r: Result<Reg, Refusal>)
    requires
        from <= to <= chars.len(),
    ensures
        r matches Ok(reg) ==> reg_named(chars@.subrange(from as int, to as int)) == Some(reg),
        r matches Err(refusal) ==> reg_named(chars@.subrange(from as int, to as int)) is None
            && refusal.fault is Reg && refusal.from == from && refusal.to == to,
{
    match lookup_reg(chars, from, to) {
        Some(reg) => Ok(reg),
        None => Err(Refusal { fault: Fault::Reg, from, to }),
    }
}

/// Reads the characters from `from` up to `to` of a line as an address.
fn addr_operand(chars: &Vec<char>, from: usize, to: usize) -> (r: Result<u64, Refusal>)
    requires
        from <= to <= chars.len(),
    ensures
        r matches Ok(addr) ==> address_value(chars@.subrange(from as int, to as int)) == Some(
            addr,
        ) && addr < ADDR_LIMIT,
        r matches Err(refusal) ==> address_value(chars@.subrange(from as int, to as int)) is None
            && refusal.fault is MemAddress && refusal.from == from && refusal.to == to,
{
    match parse_address(chars, from, to) {
        Some(addr) => Ok(addr),
        None => Err(Refusal { fault: Fault::MemAddress, from, to }),
    }
}

/// Reads the characters of a line as an instruction, or says which word
/// stands in the way.
fn parse_chars(chars: &Vec<char>) -> (r: Result<Instruction, Refusal>)
    ensures
        r matches Ok(i) ==> parse_line_spec(chars@) == Ok::<Instruction, ParseErrorView>(i)
            && i.wf(),
        r matches Err(refusal) ==> parse_line_spec(chars@) == Err::<Instruction, ParseErrorView>(
            refusal.error_in(chars@),
        ) && refusal.from <= refusal.to <= chars.len(),
{
    let name = next_word(chars, 0);
    let first = next_word(chars, name.1);
    let second = next_word(chars, first.1);
    let given: u8 = if first.0 == first.1 {
        0
    } else if second.0 == second.1 {
        1
    } else {
        2
    };
    let opcode = match lookup_mnemonic(chars, name.0, name.1) {
        Some(opcode) => opcode,
        None => {
            return Err(Refusal { fault: Fault::Instruction, from: name.0, to: name.1 });
        },
    };
    if operands_of(opcode) != given {
        return Err(Refusal { fault: Fault::Instruction, from: name.0, to: name.1 });
    }
    let mut builder = InstructionBuilder::new();
    builder.set_opcode(opcode);
    match opcode {
        Opcode::Nop => {},
        Opcode::Add | Opcode::Mul => {
            let reg1 = reg_operand(chars, first.0, first.1)?;
            let reg2 = reg_operand(chars, second.0, second.1)?;
            builder.set_reg1(reg1).set_reg2(reg2);
        },
        Opcode::Ld => {
            let reg1 = reg_operand(chars, first.0, first.1)?;
            let addr = addr_operand(chars, second.0, second.1)?;
            builder.set_reg1(reg1).set_addr(addr);
        },
        Opcode::Sav => {
            let addr = addr_operand(chars, first.0, first.1)?;
            let reg1 = reg_operand(chars, second.0, second.1)?;
            builder.set_addr(addr).set_reg1(reg1);
        },
        Opcode::Push | Opcode::Pop => {
            let reg1 = reg_operand(chars, first.0, first.1)?;
            builder.set_reg1(reg1);
        },
        Opcode::Jz | Opcode::Jgz | Opcode::Jlz => {
            let addr = addr_operand(chars, first.0, first.1)?;
            builder.set_addr(addr);
        },
    }
    Ok(builder.finalize())
}

/// Reads a word as the name of a register. The word is the whole text:
/// white space around it is not skipped.
pub fn parse_reg(word: &str) -> (r: Result<Reg, ParseError>)
    ensures
        r matches Ok(reg) ==> reg_named(word@) == Some(reg),
        r matches Err(e) ==> reg_named(word@) is None && e@ == ParseErrorView::UnkownReg(word@),
{
    let chars = chars_of(word);
    assert(word@.subrange(0, word@.len() as int) == word@);
    match lookup_reg(&chars, 0, chars.len()) {
        Some(reg) => Ok(reg),
        None => Err(ParseError::UnkownReg(word.to_owned())),
    }
}

/// Reads a line as an instruction.
///
/// Succeeds when the first word is a mnemonic, the line gives the operands
/// that the mnemonic takes and each of them can be read; the error names the
/// first word that stands in the way.
pub fn parse_line(line: &str) -> (r: Result<Instruction, ParseError>)
    ensures
        r matches Ok(i) ==> parse_line_spec(line@) == Ok::<Instruction, ParseErrorView>(i)
            && i.wf(),
        r matches Err(e) ==> parse_line_spec(line@) == Err::<Instruction, ParseErrorView>(e@),
{
    let chars = chars_of(line);
    match parse_chars(&chars) {
        Ok(instruction) => Ok(instruction),
        Err(refusal) => {
            let word = line.substring_char(refusal.from, refusal.to).to_owned();
            Err(refusal.into_error(word))
        },
    }
}

/// An assembler that gathers the instructions of the lines it has read.
#[derive(Debug, Clone)]
pub struct Parser {
    program: Vec<Instruction>,
}

impl View for Parser {
    type V = Seq<Instruction>;

    /// The instructions read so far, in the order of their lines.
    closed spec fn view(&self) -> Seq<Instruction> {
        self.program@
    }
}

impl Parser {
    /// Every instruction read so far is well formed, so that it has an
    /// encoding. This holds of a new assembler and reading keeps it.
    pub open spec fn wf(&self) -> bool {
        forall|i: int| 0 <= i < self@.len() ==> (#[trigger] self@[i]).wf()
    }

    /// An assembler that has read nothing.
    pub fn new() -> (p: Parser)
        ensures
            p@ == Seq::<Instruction>::empty(),
            p.wf(),
    {
        Parser { program: Vec::new() }
    }

    /// Reads one line and appends its instruction. A line that is no
    /// instruction leaves the assembler as it was.
    pub fn read_line(&mut self, line: &str) -> (r: Result<(), ParseError>)
        ensures
            r is Ok ==> parse_line_spec(line@) is Ok && final(self)@ == old(self)@.push(
                parse_line_spec(line@)->Ok_0,
            ),
            r matches Err(e) ==> parse_line_spec(line@) == Err::<Instruction, ParseErrorView>(e@)
                && final(self)@ == old(self)@,
            old(self).wf() ==> final(self).wf(),
    {
        match parse_line(line) {
            Ok(instruction) => {
                self.program.push(instruction);
                Ok(())
            },
            Err(e) => Err(e),
        }
    }

    /// Reads a text line by line and appends the instructions of its lines.
    /// If one line is no instruction, the error of the first such line is
    /// returned and the assembler is left as it was.
    pub fn read_from_text(&mut self, text: &str) -> (r: Result<(), ParseError>)
        ensures
            r is Ok ==> parse_text_spec(text@, 0) is Ok && final(self)@ == old(self)@
                + parse_text_spec(text@, 0)->Ok_0,
            r matches Err(e) ==> parse_text_spec(text@, 0) == Err::<
                Seq<Instruction>,
                ParseErrorView,
            >(e@) && final(self)@ == old(self)@,
            old(self).wf() ==> final(self).wf(),
    {
        let chars = chars_of(text);
        let mut read: Vec<Instruction> = Vec::new();
        let mut from: usize = 0;
        while from < chars.len()
            invariant
                from <= chars.len(),
                chars@ == text@,
                forall|i: int| 0 <= i < read@.len() ==> (#[trigger] read@[i]).wf(),
                parse_text_spec(text@, 0) == match parse_text_spec(text@, from as int) {
                    Ok(rest) => Ok::<Seq<Instruction>, ParseErrorView>(read@ + rest),
                    Err(e) => Err(e),
                },
            decreases chars.len() - from,
        {
            let mut line: Vec<char> = Vec::new();
            let mut end: usize = from;
            while end < chars.len() && chars[end] != '\n'
                invariant
                    from <= end <= chars.len(),
                    line@ == chars@.subrange(from as int, end as int),
                    line_end(chars@, from as int) == line_end(chars@, end as int),
                decreases chars.len() - end,
            {
                line.push(chars[end]);
                assert(chars@.subrange(from as int, end as int).push(chars@[end as int])
                    == chars@.subrange(from as int, end + 1));
                end += 1;
            }
            match parse_chars(&line) {
                Ok(instruction) => {
                    proof {
                        let rest = parse_text_spec(text@, end + 1);
                        if rest is Ok {
                            assert(read@ + (seq![instruction] + rest->Ok_0) == read@.push(
                                instruction,
                            ) + rest->Ok_0);
                        }
                    }
                    read.push(instruction);
                },
                Err(refusal) => {
                    assert(line@.subrange(refusal.from as int, refusal.to as int) == text@.subrange(
                        from + refusal.from,
                        from + refusal.to,
                    ));
                    let word = text.substring_char(from + refusal.from, from + refusal.to)
                        .to_owned();
                    return Err(refusal.into_error(word));
                },
            }
            from = if end < chars.len() {
                end + 1
            } else {
                end
            };
        }
        assert(read@ + Seq::<Instruction>::empty() == read@);
        let mut i: usize = 0;
        while i < read.len()
            invariant
                i <= read.len(),
                forall|j: int| 0 <= j < read@.len() ==> (#[trigger] read@[j]).wf(),
                old(self).wf() ==> self.wf(),
                self.program@ == old(self).program@ + read@.take(i as int),
            decreases read.len() - i,
        {
            self.program.push(read[i]);
            assert(read@.take(i as int).push(read@[i as int]) == read@.take(i + 1));
            i += 1;
        }
        assert(read@.take(i as int) == read@);
        Ok(())
    }

    /// Hands out the instructions read so far, in the order of their lines.
    pub fn into_instructions(self) -> (iter: std::vec::IntoIter<Instruction>)
        ensures
            IteratorSpec::remaining(&iter) == self@,
            IteratorSpec::decrease(&iter) is Some,
            IteratorSpec::initial_value_relation(&iter, &iter),
    {
        broadcast use vstd::std_specs::vec::axiom_spec_into_iter;

        self.program.into_iter()
    }
}

impl core::str::FromStr for Reg {
    type Err = ParseError;

    /// Reads a word as the name of a register, as `parse_reg` does: the
    /// word is the whole text, and a text that names no register is the
    /// payload of the error.
    fn from_str(_s: &str) -> (r: Result<Reg, ParseError>)
        ensures
            r matches Ok(reg) ==> reg_named(_s@) == Some(reg),
            r matches Err(e) ==> reg_named(_s@) is None && e@ == ParseErrorView::UnkownReg(_s@),
    {
        parse_reg(_s)
    }
}

impl core::str::FromStr for Instruction {
    type Err = ParseError;

    /// Reads a line as an instruction, as `parse_line` does: it succeeds
    /// when the first word is a mnemonic, the line gives the operands that
    /// the mnemonic takes and each of them can be read, and the error names
    /// the first word that stands in the way.
    fn from_str(_s: &str) -> (r: Result<Instruction, ParseError>)
        ensures
            r matches Ok(i) ==> parse_line_spec(_s@) == Ok::<Instruction, ParseErrorView>(i)
                && i.wf(),
            r matches Err(e) ==> parse_line_spec(_s@) == Err::<Instruction, ParseErrorView>(e@),
    {
        parse_line(_s)
    }
}

} // verus!
