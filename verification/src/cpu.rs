//! The core and the package of cores.
//!
//! A core never waits inside a call. It leaves its requests in its outbox and
//! finds the answers in its inbox; when an answer is not there yet, the step
//! says `Waiting` and is taken again later. The package moves the messages
//! between its cores and the two queues of the memory bus.

use crate::codec::{decode, decode_spec};
use crate::identity::{fresh_id, same_id};
use crate::pipeline::{PipelineCache, PipelineView, PIPE_SIZE};
use crate::registers::{
    alu_add, alu_mul, from_word, lemma_word_round_trip, overflows, to_word, value_of, word_of,
    wrap, Flags, RegisterFile, RegisterFileView,
};
use crate::utils::{
    CPUBusOp, CPUBusOpView, DecodeError, Instruction, MemBusOp, MemBusOpView, Reg,
};
use snowflake::ProcessUniqueId;
use vstd::prelude::*;

verus! {

/// How a step of a core ended.
#[derive(Copy, Clone, PartialEq, Eq, Debug, Structural)]
pub enum Step {
    /// The instruction at the instruction pointer was executed.
    Executed(Instruction),
    /// The core waits for an answer from memory. Nothing was executed; the
    /// step is to be taken again once the answer is in the inbox.
    Waiting,
}

/// Why a core cannot go on. None of these is retried.
#[derive(Clone, PartialEq, Debug)]
pub enum CoreError {
    /// The word at the instruction pointer is no instruction.
    Decode(DecodeError),
    /// Memory refused a request; the message is the one it gave.
    Bus(String),
    /// The answer is no block, or not the block that was asked for.
    MalformedResponse,
    /// A `Pop` would leave the stack pointer negative.
    StackUnderflow,
}

/// A `CoreError` in contracts.
pub enum CoreErrorView {
    Decode(DecodeError),
    Bus(Seq<char>),
    MalformedResponse,
    StackUnderflow,
}

impl View for CoreError {
    type V = CoreErrorView;

    open spec fn view(&self) -> CoreErrorView {
        match self {
            CoreError::Decode(e) => CoreErrorView::Decode(*e),
            CoreError::Bus(message) => CoreErrorView::Bus(message@),
            CoreError::MalformedResponse => CoreErrorView::MalformedResponse,
            CoreError::StackUnderflow => CoreErrorView::StackUnderflow,
        }
    }
}

/// The messages of a queue in contracts, oldest first.
pub open spec fn bus_views(ops: Seq<CPUBusOp>) -> Seq<CPUBusOpView> {
    ops.map_values(|op: CPUBusOp| op@)
}

/// Whether the entries are the block of `count` words that starts at
/// `address`: as many entries as were asked for, with the addresses in a row.
pub open spec fn is_block(entries: Seq<(u64, u64)>, address: u64, count: int) -> bool {
    entries.len() == count && forall|i: int|
        0 <= i < count ==> (#[trigger] entries[i]).0 == address + i
}

/// The words of a block, without their addresses.
pub open spec fn words_of(entries: Seq<(u64, u64)>) -> Seq<u64> {
    entries.map_values(|entry: (u64, u64)| entry.1)
}

/// What came of asking memory for a block.
pub enum Transfer {
    /// The answer is not there yet.
    Wait,
    /// The block that was asked for.
    Block(Seq<(u64, u64)>),
    /// The request was refused or the answer is malformed.
    Fail(CoreErrorView),
}

/// What a core holds.
pub struct CoreView {
    /// The identity of the core on the memory bus.
    pub id: ProcessUniqueId,
    /// The registers and flags.
    pub regs: RegisterFileView,
    /// The instruction window.
    pub pipe: PipelineView,
    /// Whether a request was sent that has not been answered yet. A core
    /// sends no second request while this holds.
    pub awaiting: bool,
    /// The messages that the core has sent and the package has not taken
    /// yet, oldest first.
    pub outbox: Seq<CPUBusOpView>,
    /// The messages that the package has brought and the core has not read
    /// yet, oldest first.
    pub inbox: Seq<CPUBusOpView>,
}

impl CoreView {
    /// The address that the instruction pointer holds.
    pub open spec fn ip(self) -> u64 {
        to_word(self.regs.read(Reg::ISP))
    }

    /// The core with other registers and flags.
    pub open spec fn with_regs(self, regs: RegisterFileView) -> CoreView {
        CoreView { regs: regs, ..self }
    }

    /// Asking memory for `count` words from `address` on.
    ///
    /// While no request is under way, the request is sent and the core
    /// waits. While one is under way and the inbox is empty, the core waits
    /// on. Otherwise the oldest message of the inbox is taken as the answer:
    /// it must be the block that is asked for.
    pub open spec fn read_from_memory(self, address: u64, count: usize) -> (CoreView, Transfer) {
        if !self.awaiting {
            (
                CoreView {
                    awaiting: true,
                    outbox: self.outbox.push(CPUBusOpView::RequestBlock(address, count)),
                    ..self
                },
                Transfer::Wait,
            )
        } else if self.inbox.len() == 0 {
            (self, Transfer::Wait)
        } else {
            let after = CoreView { awaiting: false, inbox: self.inbox.drop_first(), ..self };
            match self.inbox[0] {
                CPUBusOpView::GiveBlock(entries) => if is_block(entries, address, count as int) {
                    (after, Transfer::Block(entries))
                } else {
                    (after, Transfer::Fail(CoreErrorView::MalformedResponse))
                },
                CPUBusOpView::Error(message) => (after, Transfer::Fail(CoreErrorView::Bus(message))),
                CPUBusOpView::RequestBlock(_, _) => (
                    after,
                    Transfer::Fail(CoreErrorView::MalformedResponse),
                ),
            }
        }
    }

    /// Sending words to memory: one more message in the outbox.
    pub open spec fn write_to_memory(self, entries: Seq<(u64, u64)>) -> CoreView {
        CoreView { outbox: self.outbox.push(CPUBusOpView::GiveBlock(entries)), ..self }
    }

    /// Fetching the word at `address`: from the window if it holds the
    /// address, else from memory as a block of eight words that replaces the
    /// window. `None` stands for waiting.
    pub open spec fn read_instr_at(self, address: u64) -> (CoreView, Result<
        Option<u64>,
        CoreErrorView,
    >) {
        match self.pipe.lookup(address) {
            Some(word) => (self, Ok(Some(word))),
            None => {
                let (after, transfer) = self.read_from_memory(address, PIPE_SIZE);
                match transfer {
                    Transfer::Wait => (after, Ok(None)),
                    Transfer::Fail(e) => (after, Err(e)),
                    Transfer::Block(entries) => (
                        CoreView { pipe: PipelineView::filled(address, words_of(entries)), ..after },
                        Ok(Some(entries[0].1)),
                    ),
                }
            },
        }
    }

    /// The core with the instruction pointer moved on by one word.
    pub open spec fn advance(self) -> CoreView {
        self.with_regs(self.regs.write(Reg::ISP, wrap(self.regs.read(Reg::ISP) + 1)))
    }

    /// The core after a value was computed into a register: the register
    /// holds the value and the flags are those of the value.
    pub open spec fn with_result(self, reg: Reg, value: i64, overflow: bool) -> CoreView {
        self.with_regs(self.regs.write(reg, value).apply_result(value, overflow))
    }

    /// The core after a jump that fires or not. The flags stay as they are.
    pub open spec fn jump(self, fires: bool, address: u64) -> CoreView {
        if fires {
            self.with_regs(self.regs.write(Reg::ISP, from_word(address)))
        } else {
            self.advance()
        }
    }

    /// The core after `Add` or `Mul` into `reg1`, where `exact` is the true
    /// sum or product: the register holds what two's complement keeps of
    /// it, OVERFLOW and CARRY say whether that is not all of it.
    pub open spec fn arith(self, reg1: Reg, exact: int) -> CoreView {
        self.with_result(reg1, wrap(exact), overflows(exact)).advance()
    }

    /// `Load`: asks memory for the word at the address and writes it into
    /// the register.
    pub open spec fn load(self, reg1: Reg, address: u64) -> (CoreView, Result<
        Step,
        CoreErrorView,
    >) {
        let (after, transfer) = self.read_from_memory(address, 1);
        match transfer {
            Transfer::Wait => (after, Ok(Step::Waiting)),
            Transfer::Fail(e) => (after, Err(e)),
            Transfer::Block(entries) => (
                after.with_result(reg1, from_word(entries[0].1), false).advance(),
                Ok(Step::Executed(Instruction::Load(reg1, address))),
            ),
        }
    }

    /// `Store`: sends the register to the address.
    pub open spec fn store(self, address: u64, reg1: Reg) -> CoreView {
        let value = self.regs.read(reg1);
        self.write_to_memory(seq![(address, to_word(value))]).with_regs(
            self.regs.apply_result(value, false),
        ).advance()
    }

    /// `Push`: moves the stack pointer down by one, then sends the register
    /// to the address that the stack pointer holds.
    pub open spec fn push(self, reg1: Reg) -> CoreView {
        let top = wrap(self.regs.read(Reg::ESP) - 1);
        let regs = self.regs.write(Reg::ESP, top);
        let value = regs.read(reg1);
        self.write_to_memory(seq![(to_word(top), to_word(value))]).with_regs(
            regs.apply_result(value, false),
        ).advance()
    }

    /// `Pop`: asks memory for the word at the stack pointer, moves the
    /// stack pointer up by one, which must not leave it negative, and then
    /// writes the word into the register.
    pub open spec fn pop(self, reg1: Reg) -> (CoreView, Result<Step, CoreErrorView>) {
        let (after, transfer) = self.read_from_memory(to_word(self.regs.read(Reg::ESP)), 1);
        match transfer {
            Transfer::Wait => (after, Ok(Step::Waiting)),
            Transfer::Fail(e) => (after, Err(e)),
            Transfer::Block(entries) => {
                let top = wrap(after.regs.read(Reg::ESP) + 1);
                if top < 0 {
                    (after, Err(CoreErrorView::StackUnderflow))
                } else {
                    (
                        after.with_regs(after.regs.write(Reg::ESP, top)).with_result(
                            reg1,
                            from_word(entries[0].1),
                            false,
                        ).advance(),
                        Ok(Step::Executed(Instruction::Pop(reg1))),
                    )
                }
            },
        }
    }

    /// Executing an instruction.
    ///
    /// `Add` and `Mul` compute in two's complement into the first register.
    /// `Load` and `Pop` read a word from memory, `Store` and `Push` send
    /// one. All of these set the flags of the value. A jump writes the
    /// instruction pointer if its condition holds; the jumps and `Nop` leave
    /// the flags as they are. Unless a jump fired, the instruction pointer
    /// moves on by one word.
    pub open spec fn execute(self, instruction: Instruction) -> (CoreView, Result<
        Step,
        CoreErrorView,
    >) {
        let done = Ok::<Step, CoreErrorView>(Step::Executed(instruction));
        match instruction {
            Instruction::Nop => (self.advance(), done),
            Instruction::Add(reg1, reg2) => (
                self.arith(reg1, self.regs.read(reg1) + self.regs.read(reg2)),
                done,
            ),
            Instruction::Mul(reg1, reg2) => (
                self.arith(reg1, self.regs.read(reg1) * self.regs.read(reg2)),
                done,
            ),
            Instruction::Load(reg1, address) => self.load(reg1, address),
            Instruction::Store(address, reg1) => (self.store(address, reg1), done),
            Instruction::Push(reg1) => (self.push(reg1), done),
            Instruction::Pop(reg1) => self.pop(reg1),
            Instruction::JumpIfZero(address) => (self.jump(self.regs.flags.zero, address), done),
            Instruction::JumpIfPositive(address) => (
                self.jump(!self.regs.flags.sign, address),
                done,
            ),
            Instruction::JumpIfNegative(address) => (
                self.jump(self.regs.flags.sign, address),
                done,
            ),
        }
    }

    /// One step: fetching the word at the instruction pointer, decoding it
    /// and executing the instruction.
    pub open spec fn step(self) -> (CoreView, Result<Step, CoreErrorView>) {
        let (fetched, word) = self.read_instr_at(self.ip());
        match word {
            Err(e) => (fetched, Err(e)),
            Ok(None) => (fetched, Ok(Step::Waiting)),
            Ok(Some(word)) => match decode_spec(word) {
                Err(e) => (fetched, Err(CoreErrorView::Decode(e))),
                Ok(instruction) => fetched.execute(instruction),
            },
        }
    }
}

/// The stack round trip: a register that is pushed comes back when it is
/// popped, and the stack pointer is where it was.
///
/// The core pushes `pushed`, asks memory for the top of the stack to pop it
/// into `popped`, and is answered with the entry that the push sent. The
/// stack pointer is itself neither pushed nor popped into, it is not
/// negative before the push, and the word is not popped into the instruction
/// pointer, which moves on after it is written.
pub proof fn lemma_push_then_pop(core: CoreView, pushed: Reg, popped: Reg)
    requires
        !core.awaiting,
        core.inbox.len() == 0,
        pushed != Reg::ESP,
        popped != Reg::ESP,
        popped != Reg::ISP,
        core.regs.read(Reg::ESP) >= 0,
    ensures
        ({
            let top = to_word(wrap(core.regs.read(Reg::ESP) - 1));
            let after_push = core.push(pushed);
            let sent = after_push.outbox.last();
            let asking = after_push.pop(popped).0;
            let answered = CoreView { inbox: asking.inbox.push(sent), ..asking };
            let (after_pop, outcome) = answered.pop(popped);
            &&& sent == CPUBusOpView::GiveBlock(seq![(top, to_word(core.regs.read(pushed)))])
            &&& after_push.pop(popped).1 == Ok::<Step, CoreErrorView>(Step::Waiting)
            &&& asking.outbox.last() == CPUBusOpView::RequestBlock(top, 1)
            &&& outcome == Ok::<Step, CoreErrorView>(Step::Executed(Instruction::Pop(popped)))
            &&& after_pop.regs.read(popped) == core.regs.read(pushed)
            &&& after_pop.regs.read(Reg::ESP) == core.regs.read(Reg::ESP)
        }),
{
    let sp = core.regs.read(Reg::ESP);
    let value = core.regs.read(pushed);
    assert(wrap(sp - 1) == sp - 1);
    assert(wrap((sp - 1) + 1) == sp);
    lemma_word_round_trip(value, 0);
    let top = to_word((sp - 1) as i64);
    let entries = seq![(top, to_word(value))];
    let pushed_regs = core.regs.write(Reg::ESP, (sp - 1) as i64);
    assert(pushed_regs.read(pushed) == value);
    let after_push = core.push(pushed);
    assert(after_push.outbox == core.outbox.push(CPUBusOpView::GiveBlock(entries)));
    assert(after_push.regs.read(Reg::ESP) == sp - 1);
    assert(!after_push.awaiting && after_push.inbox.len() == 0);
    let asking = after_push.pop(popped).0;
    assert(asking == after_push.read_from_memory(top, 1).0);
    assert(asking.awaiting && asking.inbox.len() == 0 && asking.regs == after_push.regs);
    let answered = CoreView { inbox: asking.inbox.push(after_push.outbox.last()), ..asking };
    assert(answered.inbox.len() == 1);
    assert(answered.inbox[0] == CPUBusOpView::GiveBlock(entries));
    assert(is_block(entries, top, 1));
    let (taken, transfer) = answered.read_from_memory(top, 1);
    assert(transfer == Transfer::Block(entries));
    assert(taken.regs == after_push.regs);
    assert(entries[0].1 == to_word(value));
}

/// One request at a time: a core that waits for an answer which has not
/// come asks for nothing more. Its step ends with the core still waiting,
/// and sends nothing, or the one block of a `Store` or a `Push`.
pub proof fn lemma_one_request_at_a_time(core: CoreView)
    requires
        core.awaiting,
        core.inbox.len() == 0,
    ensures
        ({
            let after = core.step().0;
            &&& after.awaiting
            &&& after.inbox.len() == 0
            &&& after.outbox == core.outbox || exists|entries: Seq<(u64, u64)>|
                after.outbox == core.outbox.push(CPUBusOpView::GiveBlock(entries))
        }),
{
    let (fetched, word) = core.read_instr_at(core.ip());
    assert(fetched == core);
    match word {
        Ok(Some(word)) => match decode_spec(word) {
            Ok(Instruction::Store(address, reg1)) => {
                let entries = seq![(address, to_word(core.regs.read(reg1)))];
                assert(core.step().0.outbox == core.outbox.push(CPUBusOpView::GiveBlock(entries)));
            },
            Ok(Instruction::Push(reg1)) => {
                let top = wrap(core.regs.read(Reg::ESP) - 1);
                let value = core.regs.write(Reg::ESP, top).read(reg1);
                let entries = seq![(to_word(top), to_word(value))];
                assert(core.step().0.outbox == core.outbox.push(CPUBusOpView::GiveBlock(entries)));
            },
            _ => {},
        },
        _ => {},
    }
}

/// Whether what a step returned is the outcome `expected`, where an error
/// stands for itself over the characters of its message.
pub open spec fn step_result_is(r: Result<Step, CoreError>, expected: Result<
    Step,
    CoreErrorView,
>) -> bool {
    match r {
        Ok(step) => expected == Ok::<Step, CoreErrorView>(step),
        Err(e) => expected == Err::<Step, CoreErrorView>(e@),
    }
}

/// Whether the entries are the block of `count` words that starts at
/// `address`.
fn holds_block(entries: &Vec<(u64, u64)>, address: u64, count: usize) -> (b: bool)
    ensures
        b == is_block(entries@, address, count as int),
{
    if entries.len() != count {
        return false;
    }
    let mut i: usize = 0;
    while i < count
        invariant
            i <= count,
            entries.len() == count,
            forall|j: int| 0 <= j < i ==> (#[trigger] entries@[j]).0 == address + j,
        decreases count - i,
    {
        let found = entries[i].0;
        if found < address || found - address != i as u64 {
            return false;
        }
        i += 1;
    }
    true
}

/// One processor: registers, flags, an instruction window, and the two ends
/// of its private channel to the package.
#[derive(Debug)]
pub struct Core {
    id: ProcessUniqueId,
    pipe: PipelineCache,
    regs: RegisterFile,
    awaiting: bool,
    tx: Vec<CPUBusOp>,
    rx: Vec<CPUBusOp>,
}

impl View for Core {
    type V = CoreView;

    closed spec fn view(&self) -> CoreView {
        CoreView {
            id: self.id,
            regs: self.regs@,
            pipe: self.pipe@,
            awaiting: self.awaiting,
            outbox: bus_views(self.tx@),
            inbox: bus_views(self.rx@),
        }
    }
}

impl Core {
    /// A core with a new identity, zero in every register, clear flags, an
    /// instruction window that holds nothing, no request under way and both
    /// queues empty.
    pub fn new() -> (core: Core)
        ensures
            core@.regs == RegisterFileView::zeroed(),
            core@.pipe == PipelineView::empty(),
            !core@.awaiting,
            core@.outbox == Seq::<CPUBusOpView>::empty(),
            core@.inbox == Seq::<CPUBusOpView>::empty(),
    {
        let core = Core {
            id: fresh_id(),
            pipe: PipelineCache::new(),
            regs: RegisterFile::new(),
            awaiting: false,
            tx: Vec::new(),
            rx: Vec::new(),
        };
        assert(bus_views(core.tx@) =~= Seq::<CPUBusOpView>::empty());
        assert(bus_views(core.rx@) =~= Seq::<CPUBusOpView>::empty());
        core
    }

    /// A core with a new identity that starts from the given registers,
    /// flags and instruction window, with no request under way and both
    /// queues empty. Once a core is made, only its own steps change its
    /// registers, flags and window.
    pub fn with_state(regs: RegisterFile, pipe: PipelineCache) -> (core: Core)
        ensures
            core@.regs == regs@,
            core@.pipe == pipe@,
            !core@.awaiting,
            core@.outbox == Seq::<CPUBusOpView>::empty(),
            core@.inbox == Seq::<CPUBusOpView>::empty(),
    {
        let core = Core {
            id: fresh_id(),
            pipe: pipe,
            regs: regs,
            awaiting: false,
            tx: Vec::new(),
            rx: Vec::new(),
        };
        assert(bus_views(core.tx@) =~= Seq::<CPUBusOpView>::empty());
        assert(bus_views(core.rx@) =~= Seq::<CPUBusOpView>::empty());
        core
    }

    /// The identity of this core on the memory bus.
    pub fn id(&self) -> (id: ProcessUniqueId)
        ensures
            id == self@.id,
    {
        self.id
    }

    /// The value of a register.
    pub fn read_reg(&self, reg: Reg) -> (value: i64)
        ensures
            value == self@.regs.read(reg),
    {
        self.regs.read(reg)
    }

    /// Replaces the value of a register. Nothing else changes.
    fn write_reg(&mut self, reg: Reg, value: i64)
        ensures
            final(self)@ == old(self)@.with_regs(old(self)@.regs.write(reg, value)),
    {
        self.regs.write(reg, value);
    }

    /// The four flags.
    pub fn flags(&self) -> (flags: Flags)
        ensures
            flags == self@.regs.flags,
    {
        self.regs.flags()
    }

    /// Sets the flags of a computed value. Nothing else changes.
    fn set_flags(&mut self, res: i64, _of: bool)
        ensures
            final(self)@ == old(self)@.with_regs(old(self)@.regs.apply_result(res, _of)),
    {
        self.regs.apply_result(res, _of);
    }

    /// The word that the instruction window holds for an address, if it
    /// holds one.
    pub fn read_from_pipe(&self, addr: u64) -> (word: Option<u64>)
        ensures
            word == self@.pipe.lookup(addr),
    {
        self.pipe.lookup(addr)
    }

    /// Puts a message from the package into the inbox, behind those that are
    /// there. Nothing else changes.
    pub fn deliver(&mut self, op: CPUBusOp)
        ensures
            final(self)@ == (CoreView { inbox: old(self)@.inbox.push(op@), ..old(self)@ }),
    {
        self.rx.push(op);
        assert(bus_views(self.rx@) =~= bus_views(old(self).rx@).push(op@));
    }

    /// Asks memory for `num` words from `start_addr` on, or takes the answer
    /// if one has come. `Ok(None)` stands for waiting.
    ///
    /// The first call sends the request and waits. Later calls wait while
    /// the inbox is empty, and then take its oldest message as the answer,
    /// which must be a block of `num` entries whose addresses are
    /// `start_addr` and those that follow it.
    fn read_from_memory(&mut self, start_addr: u64, num: usize) -> (r: Result<
        Option<Vec<(u64, u64)>>,
        CoreError,
    >)
        ensures
            final(self)@ == old(self)@.read_from_memory(start_addr, num).0,
            match old(self)@.read_from_memory(start_addr, num).1 {
                Transfer::Wait => r matches Ok(None),
                Transfer::Block(entries) => r matches Ok(Some(block)) && block@ == entries,
                Transfer::Fail(e) => r matches Err(error) && error@ == e,
            },
    {
        if !self.awaiting {
            self.tx.push(CPUBusOp::RequestBlock(start_addr, num));
            self.awaiting = true;
            assert(bus_views(self.tx@) =~= bus_views(old(self).tx@).push(
                CPUBusOpView::RequestBlock(start_addr, num),
            ));
            return Ok(None);
        }
        if self.rx.len() == 0 {
            return Ok(None);
        }
        let answer = self.rx.remove(0);
        self.awaiting = false;
        assert(bus_views(self.rx@) =~= bus_views(old(self).rx@).drop_first());
        assert(bus_views(old(self).rx@)[0] == answer@);
        match answer {
            CPUBusOp::GiveBlock(entries) => {
                if !holds_block(&entries, start_addr, num) {
                    return Err(CoreError::MalformedResponse);
                }
                Ok(Some(entries))
            },
            CPUBusOp::Error(message) => Err(CoreError::Bus(message)),
            CPUBusOp::RequestBlock(_, _) => Err(CoreError::MalformedResponse),
        }
    }

    /// Sends words to memory, each with its address.
    fn write_to_memory(&mut self, values: Vec<(u64, u64)>)
        ensures
            final(self)@ == old(self)@.write_to_memory(values@),
    {
        let ghost entries = values@;
        self.tx.push(CPUBusOp::GiveBlock(values));
        assert(bus_views(self.tx@) =~= bus_views(old(self).tx@).push(
            CPUBusOpView::GiveBlock(entries),
        ));
    }

    /// Fetches the word at an address: from the instruction window if it
    /// holds the address, else from memory as a block of eight words that
    /// replaces the window. `Ok(None)` stands for waiting.
    fn read_instr_at(&mut self, addr: u64) -> (r: Result<Option<u64>, CoreError>)
        ensures
            final(self)@ == old(self)@.read_instr_at(addr).0,
            match r {
                Ok(word) => old(self)@.read_instr_at(addr).1 == Ok::<Option<u64>, CoreErrorView>(
                    word,
                ),
                Err(e) => old(self)@.read_instr_at(addr).1 == Err::<Option<u64>, CoreErrorView>(
                    e@,
                ),
            },
    {
        if let Some(word) = self.read_from_pipe(addr) {
            return Ok(Some(word));
        }
        let entries = match self.read_from_memory(addr, PIPE_SIZE) {
            Ok(Some(entries)) => entries,
            Ok(None) => { return Ok(None); },
            Err(e) => { return Err(e); },
        };
        let mut words: [u64; 8] = [0u64;8];
        let mut i: usize = 0;
        while i < PIPE_SIZE
            invariant
                i <= PIPE_SIZE,
                entries.len() == PIPE_SIZE,
                forall|j: int| 0 <= j < i ==> words@[j] == (#[trigger] entries@[j]).1,
            decreases PIPE_SIZE - i,
        {
            words[i] = entries[i].1;
            i += 1;
        }
        assert(words@ =~= words_of(entries@));
        self.pipe.refill(addr, words);
        Ok(Some(words[0]))
    }

    /// Takes one step: fetches the word at the instruction pointer, decodes
    /// it and executes the instruction.
    ///
    /// The step ends in `Executed` with the instruction, in `Waiting` when
    /// an answer from memory is not there yet, or in an error. `Waiting`
    /// changes nothing but what was sent or received. The exact outcome is
    /// that of `CoreView::step`.
    pub fn exec_instr(&mut self) -> (r: Result<Step, CoreError>)
        ensures
            final(self)@ == old(self)@.step().0,
            step_result_is(r, old(self)@.step().1),
    {
        let cur_addr = word_of(self.read_reg(Reg::ISP));
        let word = match self.read_instr_at(cur_addr) {
            Ok(Some(word)) => word,
            Ok(None) => { return Ok(Step::Waiting); },
            Err(e) => { return Err(e); },
        };
        let cur_instr = match decode(word) {
            Ok(instruction) => instruction,
            Err(e) => { return Err(CoreError::Decode(e)); },
        };
        self.execute(cur_instr)
    }

    /// Moves the instruction pointer on by one word.
    fn advance(&mut self)
        ensures
            final(self)@ == old(self)@.advance(),
    {
        let next = alu_add(self.read_reg(Reg::ISP), 1).0;
        self.write_reg(Reg::ISP, next);
    }

    /// Writes a computed value into a register, sets its flags and moves the
    /// instruction pointer on.
    fn retire(&mut self, reg1: Reg, n: i64, of: bool)
        ensures
            final(self)@ == old(self)@.with_result(reg1, n, of).advance(),
    {
        self.write_reg(reg1, n);
        self.set_flags(n, of);
        self.advance();
    }

    /// Executes `Load`.
    fn exec_load(&mut self, reg1: Reg, address: u64) -> (r: Result<Step, CoreError>)
        ensures
            final(self)@ == old(self)@.load(reg1, address).0,
            step_result_is(r, old(self)@.load(reg1, address).1),
    {
        let block = match self.read_from_memory(address, 1) {
            Ok(Some(block)) => block,
            Ok(None) => { return Ok(Step::Waiting); },
            Err(e) => { return Err(e); },
        };
        self.retire(reg1, value_of(block[0].1), false);
        Ok(Step::Executed(Instruction::Load(reg1, address)))
    }

    /// Executes `Store`.
    fn exec_store(&mut self, address: u64, reg1: Reg)
        ensures
            final(self)@ == old(self)@.store(address, reg1),
    {
        let n = self.read_reg(reg1);
        let mut values: Vec<(u64, u64)> = Vec::new();
        values.push((address, word_of(n)));
        assert(values@ =~= seq![(address, to_word(n))]);
        self.write_to_memory(values);
        self.set_flags(n, false);
        self.advance();
    }

    /// Executes `Push`.
    fn exec_push(&mut self, reg1: Reg)
        ensures
            final(self)@ == old(self)@.push(reg1),
    {
        let top = alu_add(self.read_reg(Reg::ESP), -1).0;
        self.write_reg(Reg::ESP, top);
        let n = self.read_reg(reg1);
        let mut values: Vec<(u64, u64)> = Vec::new();
        values.push((word_of(top), word_of(n)));
        assert(values@ =~= seq![(to_word(top), to_word(n))]);
        self.write_to_memory(values);
        self.set_flags(n, false);
        self.advance();
    }

    /// Executes `Pop`.
    fn exec_pop(&mut self, reg1: Reg) -> (r: Result<Step, CoreError>)
        ensures
            final(self)@ == old(self)@.pop(reg1).0,
            step_result_is(r, old(self)@.pop(reg1).1),
    {
        let address = word_of(self.read_reg(Reg::ESP));
        let block = match self.read_from_memory(address, 1) {
            Ok(Some(block)) => block,
            Ok(None) => { return Ok(Step::Waiting); },
            Err(e) => { return Err(e); },
        };
        let top = alu_add(self.read_reg(Reg::ESP), 1).0;
        if top < 0 {
            return Err(CoreError::StackUnderflow);
        }
        self.write_reg(Reg::ESP, top);
        self.retire(reg1, value_of(block[0].1), false);
        Ok(Step::Executed(Instruction::Pop(reg1)))
    }

    /// Executes a jump whose condition holds or not.
    fn exec_jump(&mut self, fires: bool, address: u64)
        ensures
            final(self)@ == old(self)@.jump(fires, address),
    {
        if fires {
            self.write_reg(Reg::ISP, value_of(address));
        } else {
            self.advance();
        }
    }

    /// Executes one instruction, as `CoreView::execute` says: computes,
    /// sends or receives what the instruction asks for, sets the flags of
    /// the value if there is one, and moves the instruction pointer on by
    /// one word unless a jump fired.
    fn execute(&mut self, cur_instr: Instruction) -> (r: Result<Step, CoreError>)
        ensures
            final(self)@ == old(self)@.execute(cur_instr).0,
            step_result_is(r, old(self)@.execute(cur_instr).1),
    {
        match cur_instr {
            Instruction::Nop => self.advance(),
            Instruction::Add(reg1, reg2) => {
                let (n, of) = alu_add(self.read_reg(reg1), self.read_reg(reg2));
                self.retire(reg1, n, of);
            },
            Instruction::Mul(reg1, reg2) => {
                let (n, of) = alu_mul(self.read_reg(reg1), self.read_reg(reg2));
                self.retire(reg1, n, of);
            },
            Instruction::Load(reg1, address) => { return self.exec_load(reg1, address); },
            Instruction::Store(address, reg1) => self.exec_store(address, reg1),
            Instruction::Push(reg1) => self.exec_push(reg1),
            Instruction::Pop(reg1) => { return self.exec_pop(reg1); },
            Instruction::JumpIfZero(address) => {
                let fires = self.flags().zero;
                self.exec_jump(fires, address);
            },
            Instruction::JumpIfPositive(address) => {
                let fires = !self.flags().sign;
                self.exec_jump(fires, address);
            },
            Instruction::JumpIfNegative(address) => {
                let fires = self.flags().sign;
                self.exec_jump(fires, address);
            },
        }
        Ok(Step::Executed(cur_instr))
    }

    /// Takes all messages out of the outbox, oldest first. Nothing else
    /// changes.
    pub fn take_requests(&mut self) -> (ops: Vec<CPUBusOp>)
        ensures
            bus_views(ops@) == old(self)@.outbox,
            ops@.len() == old(self)@.outbox.len(),
            forall|i: int| 0 <= i < ops@.len() ==> (#[trigger] ops@[i])@ == old(self)@.outbox[i],
            final(self)@ == (CoreView { outbox: Seq::<CPUBusOpView>::empty(), ..old(self)@ }),
    {
        let mut ops: Vec<CPUBusOp> = Vec::new();
        core::mem::swap(&mut self.tx, &mut ops);
        assert(bus_views(self.tx@) =~= Seq::<CPUBusOpView>::empty());
        ops
    }
}

/// Why the package cannot deliver a message that came from memory.
#[derive(Copy, Clone, PartialEq, Eq, Debug, Structural)]
pub enum RouterError {
    /// No core of the package has the identity that the message carries.
    UnknownCore,
    /// The message is a request, and memory does not ask cores for blocks.
    UnexpectedMessage,
}

/// The messages of a queue of the memory bus in contracts, oldest
/// first.
pub open spec fn mem_views(ops: Seq<MemBusOp>) -> Seq<MemBusOpView> {
    ops.map_values(|op: MemBusOp| op@)
}

/// The cores of a package in contracts.
pub open spec fn core_views(cores: Seq<Core>) -> Seq<CoreView> {
    cores.map_values(|core: Core| core@)
}

/// The first core at or after `from` that has the identity, if there is
/// one.
pub open spec fn find_core(cores: Seq<CoreView>, id: ProcessUniqueId, from: int) -> Option<int>
    decreases cores.len() - from,
{
    if 0 <= from < cores.len() {
        if cores[from].id == id {
            Some(from)
        } else {
            find_core(cores, id, from + 1)
        }
    } else {
        None
    }
}

/// The core that a message from memory is for: the first core with the
/// identity that the message carries. A request is for no core.
pub open spec fn target_of(cores: Seq<CoreView>, op: MemBusOpView) -> Result<int, RouterError> {
    if op is RequestBlock {
        Err(RouterError::UnexpectedMessage)
    } else {
        match find_core(cores, op.id(), 0) {
            Some(k) => Ok(k),
            None => Err(RouterError::UnknownCore),
        }
    }
}

/// The cores after core `k` was given a message: the message, without its
/// identity, is the newest of that core's inbox, and nothing else changes.
pub open spec fn handed(cores: Seq<CoreView>, k: int, op: MemBusOpView) -> Seq<CoreView> {
    cores.update(k, CoreView { inbox: cores[k].inbox.push(op.payload()), ..cores[k] })
}

/// What came of delivering messages from memory.
pub struct Delivery {
    /// The cores after the messages that were delivered.
    pub cores: Seq<CoreView>,
    /// How many messages were delivered.
    pub delivered: int,
    /// Why the next message cannot be delivered, if one is left.
    pub error: Option<RouterError>,
}

/// Delivering messages from memory, oldest first, each to the core that it
/// is for, up to the first that is for no core.
pub open spec fn deliver_all(cores: Seq<CoreView>, ops: Seq<MemBusOpView>) -> Delivery
    decreases ops.len(),
{
    if ops.len() == 0 {
        Delivery { cores: cores, delivered: 0, error: None }
    } else {
        match target_of(cores, ops[0]) {
            Err(e) => Delivery { cores: cores, delivered: 0, error: Some(e) },
            Ok(k) => {
                let rest = deliver_all(handed(cores, k, ops[0]), ops.drop_first());
                Delivery { delivered: rest.delivered + 1, ..rest }
            },
        }
    }
}

/// The messages of a core's outbox, each with the identity of the core.
pub open spec fn tag_all(id: ProcessUniqueId, ops: Seq<CPUBusOpView>) -> Seq<MemBusOpView> {
    ops.map_values(|op: CPUBusOpView| op.tagged(id))
}

/// What the cores have sent: the outbox of the first core, then that of the
/// second, and so on, each message with the identity of its core and each
/// outbox in its own order.
pub open spec fn collect(cores: Seq<CoreView>) -> Seq<MemBusOpView>
    decreases cores.len(),
{
    if cores.len() == 0 {
        Seq::empty()
    } else {
        collect(cores.drop_last()) + tag_all(cores.last().id, cores.last().outbox)
    }
}

/// A core with its outbox emptied.
pub open spec fn emptied(core: CoreView) -> CoreView {
    CoreView { outbox: Seq::empty(), ..core }
}

/// What a package holds.
pub struct CPUView {
    /// The cores.
    pub cores: Seq<CoreView>,
    /// The messages on their way to memory, oldest first.
    pub to_memory: Seq<MemBusOpView>,
    /// The messages that came from memory and were not delivered yet,
    /// oldest first.
    pub from_memory: Seq<MemBusOpView>,
}

impl CPUView {
    /// The package after it delivered what came from memory, and whether
    /// every message could be delivered. The messages that were delivered
    /// are gone from the queue; the first that could not be, and those after
    /// it, stay.
    pub open spec fn route_responses(self) -> (CPUView, Result<(), RouterError>) {
        let delivery = deliver_all(self.cores, self.from_memory);
        (
            CPUView {
                cores: delivery.cores,
                from_memory: self.from_memory.skip(delivery.delivered),
                ..self
            },
            match delivery.error {
                Some(e) => Err(e),
                None => Ok(()),
            },
        )
    }

    /// The package after it took what its cores have sent: every outbox is
    /// empty and its messages are on their way to memory, behind those that
    /// were already.
    pub open spec fn forward_requests(self) -> CPUView {
        CPUView {
            cores: self.cores.map_values(|core: CoreView| emptied(core)),
            to_memory: self.to_memory + collect(self.cores),
            ..self
        }
    }

    /// One round of the package: it delivers what came from memory and, if
    /// all of it could be delivered, takes what its cores have sent.
    pub open spec fn exec(self) -> (CPUView, Result<(), RouterError>) {
        let (delivered, outcome) = self.route_responses();
        match outcome {
            Err(e) => (delivered, Err(e)),
            Ok(_) => (delivered.forward_requests(), Ok(())),
        }
    }
}

/// The messages among `ops` that are for core `k`, oldest first and without
/// their identities.
pub open spec fn addressed_to(cores: Seq<CoreView>, ops: Seq<MemBusOpView>, k: int) -> Seq<
    CPUBusOpView,
>
    decreases ops.len(),
{
    if ops.len() == 0 {
        Seq::empty()
    } else {
        let earlier = addressed_to(cores, ops.drop_last(), k);
        if target_of(cores, ops.last()) == Ok::<int, RouterError>(k) {
            earlier.push(ops.last().payload())
        } else {
            earlier
        }
    }
}

/// Whether no two cores have the same identity.
pub open spec fn distinct_ids(cores: Seq<CoreView>) -> bool {
    forall|i: int, j: int|
        0 <= i < cores.len() && 0 <= j < cores.len() && i != j ==> cores[i].id != cores[j].id
}

/// A core that `find_core` finds is at or after `from`, has the identity,
/// and is the first such core.
pub proof fn lemma_find_core(cores: Seq<CoreView>, id: ProcessUniqueId, from: int)
    requires
        0 <= from,
    ensures
        match find_core(cores, id, from) {
            Some(k) => from <= k < cores.len() && cores[k].id == id && forall|j: int|
                from <= j < k ==> cores[j].id != id,
            None => forall|j: int| from <= j < cores.len() ==> cores[j].id != id,
        },
    decreases cores.len() - from,
{
    if from < cores.len() && cores[from].id != id {
        lemma_find_core(cores, id, from + 1);
    }
}

/// The core that a message is for has the identity that the message
/// carries, and where the identities of the cores differ it is the only
/// such core.
pub proof fn lemma_target_has_identity(cores: Seq<CoreView>, op: MemBusOpView, k: int)
    requires
        target_of(cores, op) == Ok::<int, RouterError>(k),
    ensures
        0 <= k < cores.len(),
        cores[k].id == op.id(),
        distinct_ids(cores) ==> forall|j: int|
            0 <= j < cores.len() && j != k ==> cores[j].id != op.id(),
{
    lemma_find_core(cores, op.id(), 0);
}

/// Whom a message is for depends on the identities of the cores alone.
proof fn lemma_find_core_by_ids(
    cores: Seq<CoreView>,
    others: Seq<CoreView>,
    id: ProcessUniqueId,
    from: int,
)
    requires
        0 <= from,
        cores.len() == others.len(),
        forall|j: int| 0 <= j < cores.len() ==> cores[j].id == others[j].id,
    ensures
        find_core(cores, id, from) == find_core(others, id, from),
    decreases cores.len() - from,
{
    if from < cores.len() && cores[from].id != id {
        lemma_find_core_by_ids(cores, others, id, from + 1);
    }
}

/// Bus isolation: however the messages from memory are interleaved, a core
/// is given exactly the messages that are for it, in their order, and
/// nothing else of it changes. With `lemma_target_has_identity`: a message
/// reaches no core but one whose identity it carries.
pub proof fn lemma_bus_isolation(cores: Seq<CoreView>, ops: Seq<MemBusOpView>, k: int)
    requires
        0 <= k < cores.len(),
    ensures
        ({
            let delivery = deliver_all(cores, ops);
            &&& 0 <= delivery.delivered <= ops.len()
            &&& delivery.error is None <==> delivery.delivered == ops.len()
            &&& delivery.cores.len() == cores.len()
            &&& delivery.cores[k] == (CoreView {
                inbox: cores[k].inbox + addressed_to(cores, ops.take(delivery.delivered), k),
                ..cores[k]
            })
        }),
    decreases ops.len(),
{
    let delivery = deliver_all(cores, ops);
    if ops.len() == 0 {
        assert(ops.take(0) =~= Seq::<MemBusOpView>::empty());
        assert(cores[k].inbox + Seq::<CPUBusOpView>::empty() =~= cores[k].inbox);
    } else {
        match target_of(cores, ops[0]) {
            Err(e) => {
                assert(ops.take(0) =~= Seq::<MemBusOpView>::empty());
                assert(cores[k].inbox + Seq::<CPUBusOpView>::empty() =~= cores[k].inbox);
            },
            Ok(t) => {
                lemma_target_has_identity(cores, ops[0], t);
                let next = handed(cores, t, ops[0]);
                let rest = ops.drop_first();
                lemma_bus_isolation(next, rest, k);
                let n = delivery.delivered;
                assert(n == deliver_all(next, rest).delivered + 1);
                lemma_addressed_to_by_ids(next, cores, rest.take(n - 1), k);
                assert(ops.take(n).drop_first() =~= rest.take(n - 1));
                lemma_addressed_to_front(cores, ops.take(n), k);
                assert(ops.take(n)[0] == ops[0]);
                let later = addressed_to(cores, rest.take(n - 1), k);
                if t == k {
                    assert(cores[k].inbox.push(ops[0].payload()) + later =~= cores[k].inbox + (
                    seq![ops[0].payload()] + later));
                }
            },
        }
    }
}

/// The messages for a core depend on the identities of the cores alone.
proof fn lemma_addressed_to_by_ids(
    cores: Seq<CoreView>,
    others: Seq<CoreView>,
    ops: Seq<MemBusOpView>,
    k: int,
)
    requires
        cores.len() == others.len(),
        forall|j: int| 0 <= j < cores.len() ==> cores[j].id == others[j].id,
    ensures
        addressed_to(cores, ops, k) == addressed_to(others, ops, k),
    decreases ops.len(),
{
    if ops.len() > 0 {
        lemma_addressed_to_by_ids(cores, others, ops.drop_last(), k);
        lemma_find_core_by_ids(cores, others, ops.last().id(), 0);
    }
}

/// The messages for a core are the oldest message, if it is for the core,
/// and then those among the rest.
proof fn lemma_addressed_to_front(cores: Seq<CoreView>, ops: Seq<MemBusOpView>, k: int)
    requires
        ops.len() > 0,
    ensures
        addressed_to(cores, ops, k) == if target_of(cores, ops[0]) == Ok::<int, RouterError>(k) {
            seq![ops[0].payload()] + addressed_to(cores, ops.drop_first(), k)
        } else {
            addressed_to(cores, ops.drop_first(), k)
        },
    decreases ops.len(),
{
    if ops.len() == 1 {
        assert(ops.drop_last() =~= Seq::<MemBusOpView>::empty());
        assert(ops.drop_first() =~= Seq::<MemBusOpView>::empty());
        assert(Seq::<CPUBusOpView>::empty().push(ops[0].payload()) =~= seq![ops[0].payload()]
            + Seq::<CPUBusOpView>::empty());
    } else {
        lemma_addressed_to_front(cores, ops.drop_last(), k);
        assert(ops.drop_last().drop_first() =~= ops.drop_first().drop_last());
        assert(ops.drop_last()[0] == ops[0]);
        assert(ops.drop_first().last() == ops.last());
        let middle = addressed_to(cores, ops.drop_first().drop_last(), k);
        assert((seq![ops[0].payload()] + middle).push(ops.last().payload()) =~= seq![
            ops[0].payload(),
        ] + middle.push(ops.last().payload()));
    }
}

/// The messages among `ops` that carry the identity, oldest first and
/// without the identity.
pub open spec fn carrying(ops: Seq<MemBusOpView>, id: ProcessUniqueId) -> Seq<CPUBusOpView>
    decreases ops.len(),
{
    if ops.len() == 0 {
        Seq::empty()
    } else if ops.last().id() == id {
        carrying(ops.drop_last(), id).push(ops.last().payload())
    } else {
        carrying(ops.drop_last(), id)
    }
}

/// Of two queues one behind the other, the messages that carry an identity
/// are those of the first and then those of the second.
proof fn lemma_carrying_add(a: Seq<MemBusOpView>, b: Seq<MemBusOpView>, id: ProcessUniqueId)
    ensures
        carrying(a + b, id) == carrying(a, id) + carrying(b, id),
    decreases b.len(),
{
    if b.len() == 0 {
        assert(a + b =~= a);
        assert(carrying(a, id) + Seq::<CPUBusOpView>::empty() =~= carrying(a, id));
    } else {
        lemma_carrying_add(a, b.drop_last(), id);
        assert((a + b).drop_last() =~= a + b.drop_last());
        assert((a + b).last() == b.last());
        assert((carrying(a, id) + carrying(b.drop_last(), id)).push(b.last().payload())
            =~= carrying(a, id) + carrying(b.drop_last(), id).push(b.last().payload()));
    }
}

/// Of the messages of one core, all carry the identity of that core and none
/// carries another.
proof fn lemma_carrying_tagged(
    sender: ProcessUniqueId,
    outbox: Seq<CPUBusOpView>,
    id: ProcessUniqueId,
)
    ensures
        carrying(tag_all(sender, outbox), id) == if sender == id {
            outbox
        } else {
            Seq::empty()
        },
    decreases outbox.len(),
{
    let tagged = tag_all(sender, outbox);
    if outbox.len() > 0 {
        lemma_carrying_tagged(sender, outbox.drop_last(), id);
        assert(tagged.drop_last() =~= tag_all(sender, outbox.drop_last()));
        assert(tagged.last() == outbox.last().tagged(sender));
        assert(tagged.last().payload() == outbox.last());
        assert(outbox.drop_last().push(outbox.last()) =~= outbox);
    } else {
        assert(outbox =~= Seq::<CPUBusOpView>::empty());
    }
}

/// Forwarding keeps the order of every core: among what the package takes
/// from its cores, the messages that carry the identity of a core are the
/// outbox of that core, message for message and in its order. The
/// identities of the cores must differ.
pub proof fn lemma_forwarding_keeps_order(cores: Seq<CoreView>, k: int)
    requires
        0 <= k < cores.len(),
        distinct_ids(cores),
    ensures
        carrying(collect(cores), cores[k].id) == cores[k].outbox,
    decreases cores.len(),
{
    let id = cores[k].id;
    let earlier = cores.drop_last();
    let newest = cores.last();
    lemma_carrying_add(collect(earlier), tag_all(newest.id, newest.outbox), id);
    lemma_carrying_tagged(newest.id, newest.outbox, id);
    if k == cores.len() - 1 {
        lemma_carrying_none(earlier, id);
        assert(Seq::<CPUBusOpView>::empty() + newest.outbox =~= newest.outbox);
    } else {
        lemma_forwarding_keeps_order(earlier, k);
        assert(earlier[k] == cores[k]);
        assert(cores[k].outbox + Seq::<CPUBusOpView>::empty() =~= cores[k].outbox);
    }
}

/// What the package takes from cores of which none has the identity holds
/// no message that carries it.
proof fn lemma_carrying_none(cores: Seq<CoreView>, id: ProcessUniqueId)
    requires
        forall|j: int| 0 <= j < cores.len() ==> cores[j].id != id,
    ensures
        carrying(collect(cores), id) == Seq::<CPUBusOpView>::empty(),
    decreases cores.len(),
{
    if cores.len() > 0 {
        let earlier = cores.drop_last();
        let newest = cores.last();
        lemma_carrying_none(earlier, id);
        lemma_carrying_add(collect(earlier), tag_all(newest.id, newest.outbox), id);
        lemma_carrying_tagged(newest.id, newest.outbox, id);
    }
}

/// A package of cores that share one memory: the cores, each with its
/// private channel, and the two queues of the memory bus.
#[derive(Debug)]
pub struct CPU {
    cores: Vec<Core>,
    tx: Vec<MemBusOp>,
    rx: Vec<MemBusOp>,
}

impl View for CPU {
    type V = CPUView;

    closed spec fn view(&self) -> CPUView {
        CPUView {
            cores: core_views(self.cores@),
            to_memory: mem_views(self.tx@),
            from_memory: mem_views(self.rx@),
        }
    }
}

impl CPU {
    /// A package of `core_num` new cores, with nothing on the memory bus.
    pub fn new(core_num: usize) -> (cpu: CPU)
        ensures
            cpu@.cores.len() == core_num,
            forall|k: int|
                0 <= k < core_num ==> {
                    let core = #[trigger] cpu@.cores[k];
                    &&& core.regs == RegisterFileView::zeroed()
                    &&& core.pipe == PipelineView::empty()
                    &&& !core.awaiting
                    &&& core.outbox == Seq::<CPUBusOpView>::empty()
                    &&& core.inbox == Seq::<CPUBusOpView>::empty()
                },
            cpu@.to_memory == Seq::<MemBusOpView>::empty(),
            cpu@.from_memory == Seq::<MemBusOpView>::empty(),
    {
        let mut cores: Vec<Core> = Vec::new();
        let mut i: usize = 0;
        while i < core_num
            invariant
                i <= core_num,
                cores@.len() == i,
                forall|k: int|
                    0 <= k < i ==> {
                        let core = #[trigger] cores@[k]@;
                        &&& core.regs == RegisterFileView::zeroed()
                        &&& core.pipe == PipelineView::empty()
                        &&& !core.awaiting
                        &&& core.outbox == Seq::<CPUBusOpView>::empty()
                        &&& core.inbox == Seq::<CPUBusOpView>::empty()
                    },
            decreases core_num - i,
        {
            cores.push(Core::new());
            i += 1;
        }
        let cpu = CPU { cores: cores, tx: Vec::new(), rx: Vec::new() };
        assert(mem_views(cpu.tx@) =~= Seq::<MemBusOpView>::empty());
        assert(mem_views(cpu.rx@) =~= Seq::<MemBusOpView>::empty());
        cpu
    }

    /// A package of the given cores, in their order, with nothing on the
    /// memory bus.
    pub fn with_cores(cores: Vec<Core>) -> (cpu: CPU)
        ensures
            cpu@.cores == core_views(cores@),
            cpu@.to_memory == Seq::<MemBusOpView>::empty(),
            cpu@.from_memory == Seq::<MemBusOpView>::empty(),
    {
        let cpu = CPU { cores: cores, tx: Vec::new(), rx: Vec::new() };
        assert(mem_views(cpu.tx@) =~= Seq::<MemBusOpView>::empty());
        assert(mem_views(cpu.rx@) =~= Seq::<MemBusOpView>::empty());
        cpu
    }

    /// The number of cores.
    pub fn core_num(&self) -> (n: usize)
        ensures
            n == self@.cores.len(),
    {
        self.cores.len()
    }

    /// The core at an index, to look at it. `None` if the package has no
    /// such core.
    pub fn core_at(&self, index: usize) -> (core: Option<&Core>)
        ensures
            index < self@.cores.len() ==> core is Some && (*core->0)@ == self@.cores[index as int],
            index >= self@.cores.len() ==> core is None,
    {
        if index < self.cores.len() {
            Some(&self.cores[index])
        } else {
            None
        }
    }

    /// The core at an index, to step it: whatever is done to it is done to
    /// the core of the package. `None` if the package has no such core.
    pub fn core_mut(&mut self, index: usize) -> (core: Option<&mut Core>)
        ensures
            index < old(self)@.cores.len() ==> core is Some && (*core->0)@ == old(
                self,
            )@.cores[index as int] && final(self)@ == (CPUView {
                cores: old(self)@.cores.update(index as int, (*final(core->0))@),
                ..old(self)@
            }),
            index >= old(self)@.cores.len() ==> core is None && final(self)@ == old(self)@,
    {
        if index < self.cores.len() {
            proof {
                assert forall|core: Core| #[trigger]
                    core_views(old(self).cores@.update(index as int, core)) == core_views(
                        old(self).cores@,
                    ).update(index as int, core@) by {
                    assert(core_views(old(self).cores@.update(index as int, core)) =~= core_views(
                        old(self).cores@,
                    ).update(index as int, core@));
                }
            }
            Some(&mut self.cores[index])
        } else {
            None
        }
    }

    /// Puts a message that came from memory into the queue of the package,
    /// behind those that are there.
    pub fn receive(&mut self, op: MemBusOp)
        ensures
            final(self)@ == (CPUView {
                from_memory: old(self)@.from_memory.push(op@),
                ..old(self)@
            }),
    {
        self.rx.push(op);
        assert(mem_views(self.rx@) =~= mem_views(old(self).rx@).push(op@));
    }

    /// Takes the messages that are on their way to memory, oldest first.
    pub fn take_requests(&mut self) -> (ops: Vec<MemBusOp>)
        ensures
            mem_views(ops@) == old(self)@.to_memory,
            ops@.len() == old(self)@.to_memory.len(),
            forall|i: int|
                0 <= i < ops@.len() ==> (#[trigger] ops@[i])@ == old(self)@.to_memory[i],
            final(self)@ == (CPUView { to_memory: Seq::<MemBusOpView>::empty(), ..old(self)@ }),
    {
        let mut ops: Vec<MemBusOp> = Vec::new();
        core::mem::swap(&mut self.tx, &mut ops);
        assert(mem_views(self.tx@) =~= Seq::<MemBusOpView>::empty());
        ops
    }

    /// Gives core `k` a message from memory, without its identity.
    fn hand(&mut self, k: usize, op: MemBusOp)
        requires
            k < old(self)@.cores.len(),
        ensures
            final(self)@ == (CPUView { cores: handed(old(self)@.cores, k as int, op@), ..old(self)@ }),
    {
        let ghost message = op@;
        self.cores[k].deliver(op.into_payload());
        assert(core_views(self.cores@) =~= handed(core_views(old(self).cores@), k as int, message));
    }

    /// Delivers what came from memory: every message, oldest first, goes
    /// without its identity into the inbox of the first core that has the
    /// identity, and into no other.
    ///
    /// A message whose identity no core has, or one that is a request, stops
    /// the delivery with an error: that message and those behind it stay in
    /// the queue, those before it have been delivered.
    pub fn route_responses(&mut self) -> (r: Result<(), RouterError>)
        ensures
            final(self)@ == old(self)@.route_responses().0,
            r == old(self)@.route_responses().1,
    {
        let mut batch: Vec<MemBusOp> = Vec::new();
        core::mem::swap(&mut self.rx, &mut batch);
        let ghost before = old(self)@;
        let ghost all = mem_views(batch@);
        assert(all == before.from_memory);
        assert(mem_views(self.rx@) =~= Seq::<MemBusOpView>::empty());
        assert(all.skip(0) =~= all);
        let mut failed: Option<RouterError> = None;
        for op in it: batch
            invariant
                all == mem_views(it.seq()),
                all == before.from_memory,
                self@.to_memory == before.to_memory,
                match failed {
                    None => {
                        let rest = deliver_all(self@.cores, all.skip(it.index() as int));
                        &&& self@.from_memory == Seq::<MemBusOpView>::empty()
                        &&& deliver_all(before.cores, all) == (Delivery {
                            delivered: rest.delivered + it.index(),
                            ..rest
                        })
                    },
                    Some(e) => {
                        let stopped = deliver_all(before.cores, all);
                        &&& stopped.error == Some(e)
                        &&& stopped.cores == self@.cores
                        &&& 0 <= stopped.delivered <= it.index()
                        &&& self@.from_memory == all.subrange(
                            stopped.delivered,
                            it.index() as int,
                        )
                    },
                },
        {
            let ghost i = it.index() as int;
            let ghost rx_before = self@.from_memory;
            assert(all[i] == op@);
            assert(all.skip(i)[0] == op@);
            assert(all.skip(i).drop_first() =~= all.skip(i + 1));
            if failed.is_some() {
                self.rx.push(op);
                assert(mem_views(self.rx@) =~= rx_before.push(all[i]));
                assert(self@.from_memory =~= all.subrange(
                    deliver_all(before.cores, all).delivered,
                    i + 1,
                ));
            } else {
                match self.find_target(&op) {
                    Ok(k) => {
                        self.hand(k, op);
                    },
                    Err(e) => {
                        failed = Some(e);
                        self.rx.push(op);
                        assert(mem_views(self.rx@) =~= rx_before.push(all[i]));
                        assert(self@.from_memory =~= all.subrange(i, i + 1));
                    },
                }
            }
        }
        proof {
            let stopped = deliver_all(before.cores, all);
            match failed {
                None => {
                    assert(all.skip(all.len() as int) =~= Seq::<MemBusOpView>::empty());
                    assert(self@.from_memory =~= all.skip(stopped.delivered));
                },
                Some(e) => {
                    assert(self@.from_memory =~= all.skip(stopped.delivered));
                },
            }
        }
        match failed {
            Some(e) => Err(e),
            None => Ok(()),
        }
    }

    /// Takes what the cores have sent: core after core, every message of
    /// the outbox goes, oldest first and with the identity of its core, on
    /// its way to memory. No message is dropped, merged or moved before one
    /// that the same core sent earlier.
    pub fn forward_requests(&mut self)
        ensures
            final(self)@ == old(self)@.forward_requests(),
    {
        let ghost before = old(self)@;
        let mut k: usize = 0;
        assert(before.cores.take(0) =~= Seq::<CoreView>::empty());
        assert(before.to_memory + collect(before.cores.take(0)) =~= before.to_memory);
        while k < self.cores.len()
            invariant
                k <= self.cores.len(),
                self@.cores.len() == before.cores.len(),
                self.cores.len() == before.cores.len(),
                self@.from_memory == before.from_memory,
                forall|j: int| 0 <= j < k ==> self@.cores[j] == emptied(#[trigger] before.cores[j]),
                forall|j: int|
                    k <= j < before.cores.len() ==> self@.cores[j] == #[trigger] before.cores[j],
                self@.to_memory == before.to_memory + collect(before.cores.take(k as int)),
            decreases self.cores.len() - k,
        {
            let ghost round = self@;
            assert(round.cores[k as int] == before.cores[k as int]);
            assert(round.cores[k as int] == self.cores@[k as int]@);
            let id = self.cores[k].id();
            let ops = self.cores[k].take_requests();
            let ghost sent = bus_views(ops@);
            assert(core_views(self.cores@) =~= round.cores.update(
                k as int,
                emptied(before.cores[k as int]),
            ));
            assert(sent.take(0) =~= Seq::<CPUBusOpView>::empty());
            assert(round.to_memory + tag_all(id, sent.take(0)) =~= round.to_memory);
            for op in it: ops
                invariant
                    sent == bus_views(it.seq()),
                    self@.cores == round.cores.update(k as int, emptied(before.cores[k as int])),
                    self@.from_memory == round.from_memory,
                    self@.to_memory == round.to_memory + tag_all(id, sent.take(it.index() as int)),
            {
                let ghost i = it.index() as int;
                let ghost tx_before = self@.to_memory;
                assert(sent[i] == op@);
                self.tx.push(op.tagged(id));
                assert(mem_views(self.tx@) =~= tx_before.push(sent[i].tagged(id)));
                assert(tag_all(id, sent.take(i)).push(sent[i].tagged(id)) =~= tag_all(
                    id,
                    sent.take(i + 1),
                ));
                assert(self@.to_memory =~= round.to_memory + tag_all(id, sent.take(i + 1)));
            }
            proof {
                assert(sent.take(sent.len() as int) =~= sent);
                let longer = before.cores.take(k + 1);
                assert(longer.drop_last() =~= before.cores.take(k as int));
                assert(longer.last() == before.cores[k as int]);
                assert(collect(longer) == collect(before.cores.take(k as int)) + tag_all(id, sent));
                assert(self@.to_memory =~= before.to_memory + collect(longer));
            }
            k += 1;
        }
        proof {
            assert(before.cores.take(before.cores.len() as int) =~= before.cores);
            assert(self@.cores =~= before.cores.map_values(|core: CoreView| emptied(core)));
        }
    }

    /// One round of the package: delivers what came from memory and then
    /// takes what the cores have sent. If a message from memory cannot be
    /// delivered the round ends there, with the error.
    pub fn exec(&mut self) -> (r: Result<(), RouterError>)
        ensures
            final(self)@ == old(self)@.exec().0,
            r == old(self)@.exec().1,
    {
        match self.route_responses() {
            Err(e) => Err(e),
            Ok(_) => {
                self.forward_requests();
                Ok(())
            },
        }
    }

    /// Finds the core that a message from memory is for.
    fn find_target(&self, op: &MemBusOp) -> (r: Result<usize, RouterError>)
        ensures
            match r {
                Ok(k) => target_of(self@.cores, op@) == Ok::<int, RouterError>(k as int) && k
                    < self@.cores.len(),
                Err(e) => target_of(self@.cores, op@) == Err::<int, RouterError>(e),
            },
    {
        if let MemBusOp::RequestBlock(_, _, _) = op {
            return Err(RouterError::UnexpectedMessage);
        }
        let id = op.id();
        let mut k: usize = 0;
        while k < self.cores.len()
            invariant
                k <= self.cores.len(),
                self@.cores.len() == self.cores.len(),
                id == op@.id(),
                !(op@ is RequestBlock),
                find_core(self@.cores, id, 0) == find_core(self@.cores, id, k as int),
            decreases self.cores.len() - k,
        {
            assert(self@.cores[k as int] == self.cores@[k as int]@);
            let found = self.cores[k].id();
            if same_id(&found, &id) {
                return Ok(k);
            }
            k += 1;
        }
        Err(RouterError::UnknownCore)
    }
}

} // verus!
