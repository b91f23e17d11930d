//! The instruction set: registers, opcodes, instructions and their 64-bit
//! encoding, and the messages that travel on the two buses.

use snowflake::ProcessUniqueId;
use vstd::prelude::*;

verus! {

/// One of the seven named register slots of a core.
///
/// `EAX` to `EDX` are general-purpose accumulators, `ESP` is the stack
/// pointer, `EBP` the frame pointer and `ISP` the instruction pointer.
#[derive(Copy, Clone, PartialEq, Eq, Debug, Structural)]
pub enum Reg {
    EAX,
    EBX,
    ECX,
    EDX,
    ESP,
    EBP,
    ISP,
}

impl Reg {
    /// The number that stands for this register in an instruction word.
    pub open spec fn code(self) -> int {
        match self {
            Reg::EAX => 0,
            Reg::EBX => 1,
            Reg::ECX => 2,
            Reg::EDX => 3,
            Reg::ESP => 4,
            Reg::EBP => 5,
            Reg::ISP => 6,
        }
    }

    /// The register that a code stands for, if it stands for one.
    pub open spec fn from_code(code: int) -> Option<Reg> {
        if code == 0 {
            Some(Reg::EAX)
        } else if code == 1 {
            Some(Reg::EBX)
        } else if code == 2 {
            Some(Reg::ECX)
        } else if code == 3 {
            Some(Reg::EDX)
        } else if code == 4 {
            Some(Reg::ESP)
        } else if code == 5 {
            Some(Reg::EBP)
        } else if code == 6 {
            Some(Reg::ISP)
        } else {
            None
        }
    }

    /// The code of this register, as a byte.
    pub fn to_u8(self) -> (code: u8)
        ensures
            code == self.code(),
            Reg::from_code(code as int) == Some(self),
    {
        match self {
            Reg::EAX => 0,
            Reg::EBX => 1,
            Reg::ECX => 2,
            Reg::EDX => 3,
            Reg::ESP => 4,
            Reg::EBP => 5,
            Reg::ISP => 6,
        }
    }

    /// Looks up the register with the given code.
    pub fn from_u8(code: u8) -> (reg: Option<Reg>)
        ensures
            reg == Reg::from_code(code as int),
            reg is Some <==> code <= 6,
    {
        match code {
            0 => Some(Reg::EAX),
            1 => Some(Reg::EBX),
            2 => Some(Reg::ECX),
            3 => Some(Reg::EDX),
            4 => Some(Reg::ESP),
            5 => Some(Reg::EBP),
            6 => Some(Reg::ISP),
            _ => None,
        }
    }
}


/// The operation that an instruction performs.
#[derive(Copy, Clone, PartialEq, Eq, Debug, Structural)]
pub enum Opcode {
    Nop,
    Add,
    Mul,
    Ld,
    Sav,
    Push,
    Pop,
    Jz,
    Jgz,
    Jlz,
}

impl Opcode {
    /// The opcode family, the value of the four highest bits of the word.
    pub open spec fn family(self) -> int {
        match self {
            Opcode::Nop => 0,
            Opcode::Add => 1,
            Opcode::Mul => 2,
            Opcode::Ld => 3,
            Opcode::Sav => 4,
            Opcode::Push => 5,
            Opcode::Pop => 6,
            Opcode::Jz | Opcode::Jgz | Opcode::Jlz => 7,
        }
    }

    /// The jump kind, the value of the next four bits: 1 to 3 for the three
    /// jumps, 0 for every other opcode.
    pub open spec fn kind(self) -> int {
        match self {
            Opcode::Jz => 1,
            Opcode::Jgz => 2,
            Opcode::Jlz => 3,
            _ => 0,
        }
    }

    /// The opcode that a family and a jump kind select. Outside the jump
    /// family the kind is not looked at.
    pub open spec fn from_codes(family: int, kind: int) -> Option<Opcode> {
        if family == 0 {
            Some(Opcode::Nop)
        } else if family == 1 {
            Some(Opcode::Add)
        } else if family == 2 {
            Some(Opcode::Mul)
        } else if family == 3 {
            Some(Opcode::Ld)
        } else if family == 4 {
            Some(Opcode::Sav)
        } else if family == 5 {
            Some(Opcode::Push)
        } else if family == 6 {
            Some(Opcode::Pop)
        } else if family == 7 && kind == 1 {
            Some(Opcode::Jz)
        } else if family == 7 && kind == 2 {
            Some(Opcode::Jgz)
        } else if family == 7 && kind == 3 {
            Some(Opcode::Jlz)
        } else {
            None
        }
    }

    /// Whether an instruction with this opcode names a first register.
    pub open spec fn has_reg1(self) -> bool {
        self is Add || self is Mul || self is Ld || self is Sav || self is Push || self is Pop
    }

    /// Whether an instruction with this opcode names a second register.
    pub open spec fn has_reg2(self) -> bool {
        self is Add || self is Mul
    }

    /// Whether an instruction with this opcode carries an address.
    pub open spec fn has_addr(self) -> bool {
        self is Ld || self is Sav || self is Jz || self is Jgz || self is Jlz
    }

    /// The family and the jump kind of this opcode.
    pub fn to_codes(self) -> (codes: (u8, u8))
        ensures
            codes.0 == self.family(),
            codes.1 == self.kind(),
            Opcode::from_codes(codes.0 as int, codes.1 as int) == Some(self),
    {
        match self {
            Opcode::Nop => (0, 0),
            Opcode::Add => (1, 0),
            Opcode::Mul => (2, 0),
            Opcode::Ld => (3, 0),
            Opcode::Sav => (4, 0),
            Opcode::Push => (5, 0),
            Opcode::Pop => (6, 0),
            Opcode::Jz => (7, 1),
            Opcode::Jgz => (7, 2),
            Opcode::Jlz => (7, 3),
        }
    }

    /// Looks up the opcode that a family and a jump kind select.
    pub fn from_u8(family: u8, kind: u8) -> (opcode: Option<Opcode>)
        ensures
            opcode == Opcode::from_codes(family as int, kind as int),
            opcode is Some <==> family <= 6 || (family == 7 && 1 <= kind <= 3),
    {
        match family {
            0 => Some(Opcode::Nop),
            1 => Some(Opcode::Add),
            2 => Some(Opcode::Mul),
            3 => Some(Opcode::Ld),
            4 => Some(Opcode::Sav),
            5 => Some(Opcode::Push),
            6 => Some(Opcode::Pop),
            7 => match kind {
                1 => Some(Opcode::Jz),
                2 => Some(Opcode::Jgz),
                3 => Some(Opcode::Jlz),
                _ => None,
            },
            _ => None,
        }
    }
}

/// Why a 64-bit word is not an instruction.
#[derive(Copy, Clone, PartialEq, Eq, Debug, Structural)]
pub enum DecodeError {
    /// The family is not one of 0 to 7, or the family is 7 and the jump kind
    /// is not one of 1 to 3.
    UnknownOpcode,
    /// The opcode names a register and its code is not one of 0 to 6.
    UnknownRegister,
}

/// The weight of the opcode family in an instruction word: bit 60.
pub const FAMILY_UNIT: u64 = 0x1000_0000_0000_0000;

/// The weight of the jump kind in an instruction word: bit 56.
pub const KIND_UNIT: u64 = 0x0100_0000_0000_0000;

/// The weight of the first register's code in an instruction word: bit 52.
pub const REG1_UNIT: u64 = 0x0010_0000_0000_0000;

/// The weight of the second register's code in an instruction word: bit 48.
pub const REG2_UNIT: u64 = 0x0001_0000_0000_0000;

/// The first value that is no address: addresses have 52 bits.
pub const ADDR_LIMIT: u64 = 0x0010_0000_0000_0000;

/// A decoded instruction: an opcode with the operands that it takes.
#[derive(Copy, Clone, PartialEq, Eq, Debug, Structural)]
pub enum Instruction {
    /// Does nothing.
    Nop,
    /// Adds the second register to the first.
    Add(Reg, Reg),
    /// Multiplies the first register by the second.
    Mul(Reg, Reg),
    /// Loads the word at the address into the register.
    Load(Reg, u64),
    /// Stores the register at the address.
    Store(u64, Reg),
    /// Pushes the register on the stack.
    Push(Reg),
    /// Pops the top of the stack into the register.
    Pop(Reg),
    /// Jumps to the address if the ZERO flag is set.
    JumpIfZero(u64),
    /// Jumps to the address if the SIGN flag is clear.
    JumpIfPositive(u64),
    /// Jumps to the address if the SIGN flag is set.
    JumpIfNegative(u64),
}

impl Instruction {
    /// The opcode of this instruction.
    pub open spec fn spec_opcode(self) -> Opcode {
        match self {
            Instruction::Nop => Opcode::Nop,
            Instruction::Add(_, _) => Opcode::Add,
            Instruction::Mul(_, _) => Opcode::Mul,
            Instruction::Load(_, _) => Opcode::Ld,
            Instruction::Store(_, _) => Opcode::Sav,
            Instruction::Push(_) => Opcode::Push,
            Instruction::Pop(_) => Opcode::Pop,
            Instruction::JumpIfZero(_) => Opcode::Jz,
            Instruction::JumpIfPositive(_) => Opcode::Jgz,
            Instruction::JumpIfNegative(_) => Opcode::Jlz,
        }
    }

    /// The first register operand, where the instruction has one.
    pub open spec fn spec_reg1(self) -> Option<Reg> {
        match self {
            Instruction::Add(r, _) | Instruction::Mul(r, _) | Instruction::Load(r, _)
            | Instruction::Store(_, r) | Instruction::Push(r) | Instruction::Pop(r) => Some(r),
            _ => None,
        }
    }

    /// The second register operand, where the instruction has one.
    pub open spec fn spec_reg2(self) -> Option<Reg> {
        match self {
            Instruction::Add(_, r) | Instruction::Mul(_, r) => Some(r),
            _ => None,
        }
    }

    /// The address operand, where the instruction has one.
    pub open spec fn spec_addr(self) -> Option<u64> {
        match self {
            Instruction::Load(_, a) | Instruction::Store(a, _) | Instruction::JumpIfZero(a)
            | Instruction::JumpIfPositive(a) | Instruction::JumpIfNegative(a) => Some(a),
            _ => None,
        }
    }

    /// The instruction with the given opcode that takes its operands from
    /// the given values, each where the opcode has such an operand.
    pub open spec fn assemble(opcode: Opcode, reg1: Reg, reg2: Reg, addr: u64) -> Instruction {
        match opcode {
            Opcode::Nop => Instruction::Nop,
            Opcode::Add => Instruction::Add(reg1, reg2),
            Opcode::Mul => Instruction::Mul(reg1, reg2),
            Opcode::Ld => Instruction::Load(reg1, addr),
            Opcode::Sav => Instruction::Store(addr, reg1),
            Opcode::Push => Instruction::Push(reg1),
            Opcode::Pop => Instruction::Pop(reg1),
            Opcode::Jz => Instruction::JumpIfZero(addr),
            Opcode::Jgz => Instruction::JumpIfPositive(addr),
            Opcode::Jlz => Instruction::JumpIfNegative(addr),
        }
    }

    /// An instruction is well formed when its address operand, if it has
    /// one, fits in 52 bits. These are the instructions that have an
    /// encoding.
    pub open spec fn wf(self) -> bool {
        self.spec_addr() matches Some(a) ==> a < ADDR_LIMIT
    }

    /// The instruction that does nothing.
    pub fn new() -> (i: Instruction)
        ensures
            i == Instruction::Nop,
    {
        Instruction::Nop
    }

    /// The opcode of this instruction.
    pub fn opcode(&self) -> (opcode: Opcode)
        ensures
            opcode == self.spec_opcode(),
    {
        match self {
            Instruction::Nop => Opcode::Nop,
            Instruction::Add(_, _) => Opcode::Add,
            Instruction::Mul(_, _) => Opcode::Mul,
            Instruction::Load(_, _) => Opcode::Ld,
            Instruction::Store(_, _) => Opcode::Sav,
            Instruction::Push(_) => Opcode::Push,
            Instruction::Pop(_) => Opcode::Pop,
            Instruction::JumpIfZero(_) => Opcode::Jz,
            Instruction::JumpIfPositive(_) => Opcode::Jgz,
            Instruction::JumpIfNegative(_) => Opcode::Jlz,
        }
    }

    /// The first register operand: `None` for the jumps and for `Nop`.
    pub fn reg1(&self) -> (reg: Option<Reg>)
        ensures
            reg == self.spec_reg1(),
            reg is Some <==> self.spec_opcode().has_reg1(),
    {
        match self {
            Instruction::Add(r, _) => Some(*r),
            Instruction::Mul(r, _) => Some(*r),
            Instruction::Load(r, _) => Some(*r),
            Instruction::Store(_, r) => Some(*r),
            Instruction::Push(r) => Some(*r),
            Instruction::Pop(r) => Some(*r),
            _ => None,
        }
    }

    /// The second register operand: `Some` for `Add` and `Mul` only.
    pub fn reg2(&self) -> (reg: Option<Reg>)
        ensures
            reg == self.spec_reg2(),
            reg is Some <==> self.spec_opcode().has_reg2(),
    {
        match self {
            Instruction::Add(_, r) => Some(*r),
            Instruction::Mul(_, r) => Some(*r),
            _ => None,
        }
    }

    /// The address operand: `Some` for `Load`, `Store` and the jumps only.
    pub fn addr(&self) -> (addr: Option<u64>)
        ensures
            addr == self.spec_addr(),
            addr is Some <==> self.spec_opcode().has_addr(),
    {
        match self {
            Instruction::Load(_, a) => Some(*a),
            Instruction::Store(a, _) => Some(*a),
            Instruction::JumpIfZero(a) => Some(*a),
            Instruction::JumpIfPositive(a) => Some(*a),
            Instruction::JumpIfNegative(a) => Some(*a),
            _ => None,
        }
    }
}

/// Puts an instruction together from its parts, one call for each.
///
/// A new builder holds `Nop`, the register `EAX` twice and the address 0.
/// Each setter replaces one part and keeps the others; `finalize` makes the
/// instruction of the opcode from the parts that the opcode takes.
pub struct InstructionBuilder {
    opcode: Opcode,
    reg1: Reg,
    reg2: Reg,
    addr: u64,
}

impl InstructionBuilder {
    #[verifier::type_invariant]
    spec fn addr_in_range(self) -> bool {
        self.addr < ADDR_LIMIT
    }

    /// The opcode that the builder holds.
    pub closed spec fn spec_opcode(self) -> Opcode {
        self.opcode
    }

    /// The first register that the builder holds.
    pub closed spec fn spec_reg1(self) -> Reg {
        self.reg1
    }

    /// The second register that the builder holds.
    pub closed spec fn spec_reg2(self) -> Reg {
        self.reg2
    }

    /// The address that the builder holds.
    pub closed spec fn spec_addr(self) -> u64 {
        self.addr
    }

    /// The instruction that `finalize` makes of what the builder holds.
    pub open spec fn spec_finalize(self) -> Instruction {
        Instruction::assemble(
            self.spec_opcode(),
            self.spec_reg1(),
            self.spec_reg2(),
            self.spec_addr(),
        )
    }

    /// A builder that holds `Nop`, `EAX`, `EAX` and the address 0.
    pub fn new() -> (b: InstructionBuilder)
        ensures
            b.spec_opcode() == Opcode::Nop,
            b.spec_reg1() == Reg::EAX,
            b.spec_reg2() == Reg::EAX,
            b.spec_addr() == 0,
    {
        InstructionBuilder { opcode: Opcode::Nop, reg1: Reg::EAX, reg2: Reg::EAX, addr: 0 }
    }

    /// Replaces the opcode.
    pub fn set_opcode(&mut self, _op: Opcode) -> (ret: &mut InstructionBuilder)
        ensures
            ret.spec_opcode() == _op,
            ret.spec_reg1() == old(self).spec_reg1(),
            ret.spec_reg2() == old(self).spec_reg2(),
            ret.spec_addr() == old(self).spec_addr(),
            *final(self) == *final(ret),
    {
        proof {
            use_type_invariant(&*self);
        }
        self.opcode = _op;
        self
    }

    /// Replaces the first register.
    pub fn set_reg1(&mut self, _reg: Reg) -> (ret: &mut InstructionBuilder)
        ensures
            ret.spec_opcode() == old(self).spec_opcode(),
            ret.spec_reg1() == _reg,
            ret.spec_reg2() == old(self).spec_reg2(),
            ret.spec_addr() == old(self).spec_addr(),
            *final(self) == *final(ret),
    {
        proof {
            use_type_invariant(&*self);
        }
        self.reg1 = _reg;
        self
    }

    /// Replaces the second register.
    pub fn set_reg2(&mut self, _reg: Reg) -> (ret: &mut InstructionBuilder)
        ensures
            ret.spec_opcode() == old(self).spec_opcode(),
            ret.spec_reg1() == old(self).spec_reg1(),
            ret.spec_reg2() == _reg,
            ret.spec_addr() == old(self).spec_addr(),
            *final(self) == *final(ret),
    {
        proof {
            use_type_invariant(&*self);
        }
        self.reg2 = _reg;
        self
    }

    /// Replaces the address, which must fit in 52 bits.
    pub fn set_addr(&mut self, _addr: u64) -> (ret: &mut InstructionBuilder)
        requires
            _addr < ADDR_LIMIT,
        ensures
            ret.spec_opcode() == old(self).spec_opcode(),
            ret.spec_reg1() == old(self).spec_reg1(),
            ret.spec_reg2() == old(self).spec_reg2(),
            ret.spec_addr() == _addr,
            *final(self) == *final(ret),
    {
        self.addr = _addr;
        self
    }

    /// The instruction of the opcode, with the operands that the opcode
    /// takes: `Add` and `Mul` take both registers, `Ld` and `Sav` the first
    /// register and the address, `Push` and `Pop` the first register, the
    /// jumps the address, and `Nop` nothing.
    pub fn finalize(&self) -> (i: Instruction)
        ensures
            i == self.spec_finalize(),
            i.wf(),
    {
        proof {
            use_type_invariant(self);
        }
        match self.opcode {
            Opcode::Nop => Instruction::Nop,
            Opcode::Add => Instruction::Add(self.reg1, self.reg2),
            Opcode::Mul => Instruction::Mul(self.reg1, self.reg2),
            Opcode::Ld => Instruction::Load(self.reg1, self.addr),
            Opcode::Sav => Instruction::Store(self.addr, self.reg1),
            Opcode::Push => Instruction::Push(self.reg1),
            Opcode::Pop => Instruction::Pop(self.reg1),
            Opcode::Jz => Instruction::JumpIfZero(self.addr),
            Opcode::Jgz => Instruction::JumpIfPositive(self.addr),
            Opcode::Jlz => Instruction::JumpIfNegative(self.addr),
        }
    }
}

/// The weight of byte `nth` of a 64-bit number, where byte 0 is the most
/// significant and byte 7 the least.
pub open spec fn byte_unit(nth: int) -> int {
    if nth == 0 {
        0x0100_0000_0000_0000
    } else if nth == 1 {
        0x0001_0000_0000_0000
    } else if nth == 2 {
        0x0000_0100_0000_0000
    } else if nth == 3 {
        0x0000_0001_0000_0000
    } else if nth == 4 {
        0x0000_0000_0100_0000
    } else if nth == 5 {
        0x0000_0000_0001_0000
    } else if nth == 6 {
        0x0000_0000_0000_0100
    } else {
        1
    }
}

/// Byte `nth` of a 64-bit number, counted from the most significant.
pub open spec fn nth_byte(num: u64, nth: int) -> int {
    (num as int / byte_unit(nth)) % 256
}

/// Shifting and masking a number gives its bytes.
proof fn lemma_bytes_by_shift(num: u64)
    by (bit_vector)
    ensures
        (num >> 56) & 0xff == (num / 0x0100_0000_0000_0000) % 256,
        (num >> 48) & 0xff == (num / 0x0001_0000_0000_0000) % 256,
        (num >> 40) & 0xff == (num / 0x0000_0100_0000_0000) % 256,
        (num >> 32) & 0xff == (num / 0x0000_0001_0000_0000) % 256,
        (num >> 24) & 0xff == (num / 0x0000_0000_0100_0000) % 256,
        (num >> 16) & 0xff == (num / 0x0000_0000_0001_0000) % 256,
        (num >> 8) & 0xff == (num / 0x0000_0000_0000_0100) % 256,
        (num >> 0) & 0xff == (num / 1) % 256,
{
}

/// Gives byte `nth` of a 64-bit number, where byte 0 is the most significant
/// and byte 7 the least. There is no byte after the seventh.
pub fn get_nth_byte(num: u64, nth: usize) -> (byte: u8)
    requires
        nth < 8,
    ensures
        byte == nth_byte(num, nth as int),
{
    let mask: u64 = 0x00_00_00_00_00_00_00_ff;
    let shift: u64 = ((7 - nth) * 8) as u64;
    let shifted: u64 = num >> shift;
    proof {
        lemma_bytes_by_shift(num);
        assert(mask & shifted == shifted & 0xff && shifted & 0xff < 256) by (bit_vector)
            requires
                mask == 0xff,
        ;
    }
    (mask & shifted) as u8
}

/// A message between a core and the router.
#[derive(Debug, Clone, PartialEq)]
pub enum CPUBusOp {
    /// Asks for the words of `count` addresses in a row, from `address` on.
    RequestBlock(u64, usize),
    /// Hands over words, each with its address: the answer to a request
    /// when it comes from memory, a write when it comes from a core.
    GiveBlock(Vec<(u64, u64)>),
    /// Says that a request was refused, and why.
    Error(String),
}

/// A `CPUBusOp` in contracts.
pub enum CPUBusOpView {
    RequestBlock(u64, usize),
    GiveBlock(Seq<(u64, u64)>),
    Error(Seq<char>),
}

impl View for CPUBusOp {
    type V = CPUBusOpView;

    open spec fn view(&self) -> CPUBusOpView {
        match self {
            CPUBusOp::RequestBlock(address, count) => CPUBusOpView::RequestBlock(*address, *count),
            CPUBusOp::GiveBlock(entries) => CPUBusOpView::GiveBlock(entries@),
            CPUBusOp::Error(message) => CPUBusOpView::Error(message@),
        }
    }
}

/// A message between the router and memory: a `CPUBusOp` together with the
/// identity of the core that it comes from or goes to.
#[derive(Debug, PartialEq)]
pub enum MemBusOp {
    RequestBlock(ProcessUniqueId, u64, usize),
    GiveBlock(ProcessUniqueId, Vec<(u64, u64)>),
    Error(ProcessUniqueId, String),
}

/// A `MemBusOp` in contracts.
pub enum MemBusOpView {
    RequestBlock(ProcessUniqueId, u64, usize),
    GiveBlock(ProcessUniqueId, Seq<(u64, u64)>),
    Error(ProcessUniqueId, Seq<char>),
}

impl View for MemBusOp {
    type V = MemBusOpView;

    open spec fn view(&self) -> MemBusOpView {
        match self {
            MemBusOp::RequestBlock(id, address, count) => MemBusOpView::RequestBlock(
                *id,
                *address,
                *count,
            ),
            MemBusOp::GiveBlock(id, entries) => MemBusOpView::GiveBlock(*id, entries@),
            MemBusOp::Error(id, message) => MemBusOpView::Error(*id, message@),
        }
    }
}

impl CPUBusOpView {
    /// This message with the identity of a core added.
    pub open spec fn tagged(self, id: ProcessUniqueId) -> MemBusOpView {
        match self {
            CPUBusOpView::RequestBlock(address, count) => MemBusOpView::RequestBlock(
                id,
                address,
                count,
            ),
            CPUBusOpView::GiveBlock(entries) => MemBusOpView::GiveBlock(id, entries),
            CPUBusOpView::Error(message) => MemBusOpView::Error(id, message),
        }
    }
}

impl MemBusOpView {
    /// The identity that this message carries.
    pub open spec fn id(self) -> ProcessUniqueId {
        match self {
            MemBusOpView::RequestBlock(id, _, _) => id,
            MemBusOpView::GiveBlock(id, _) => id,
            MemBusOpView::Error(id, _) => id,
        }
    }

    /// This message without its identity.
    pub open spec fn payload(self) -> CPUBusOpView {
        match self {
            MemBusOpView::RequestBlock(_, address, count) => CPUBusOpView::RequestBlock(
                address,
                count,
            ),
            MemBusOpView::GiveBlock(_, entries) => CPUBusOpView::GiveBlock(entries),
            MemBusOpView::Error(_, message) => CPUBusOpView::Error(message),
        }
    }
}

impl CPUBusOp {
    /// Adds the identity of a core to this message.
    pub fn tagged(self, id: ProcessUniqueId) -> (op: MemBusOp)
        ensures
            op@ == self@.tagged(id),
            op@.id() == id,
            op@.payload() == self@,
    {
        match self {
            CPUBusOp::RequestBlock(address, count) => MemBusOp::RequestBlock(id, address, count),
            CPUBusOp::GiveBlock(entries) => MemBusOp::GiveBlock(id, entries),
            CPUBusOp::Error(message) => MemBusOp::Error(id, message),
        }
    }
}

impl MemBusOp {
    /// The identity that this message carries.
    pub fn id(&self) -> (id: ProcessUniqueId)
        ensures
            id == self@.id(),
    {
        match self {
            MemBusOp::RequestBlock(id, _, _) => *id,
            MemBusOp::GiveBlock(id, _) => *id,
            MemBusOp::Error(id, _) => *id,
        }
    }

    /// Takes the identity off this message.
    pub fn into_payload(self) -> (op: CPUBusOp)
        ensures
            op@ == self@.payload(),
    {
        match self {
            MemBusOp::RequestBlock(_, address, count) => CPUBusOp::RequestBlock(address, count),
            MemBusOp::GiveBlock(_, entries) => CPUBusOp::GiveBlock(entries),
            MemBusOp::Error(_, message) => CPUBusOp::Error(message),
        }
    }
}

} // verus!
