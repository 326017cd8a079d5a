//! The Tessellated Intelligence System: a single basic execution node.
//!
//! A `Node` holds an accumulator, a hidden backup register, a program counter,
//! a loaded `Program` and two `Port`s (`up` for reading, `down` for writing).
//! Executing an `Instruction` or running a `Program` never mutates a node:
//! every operation yields a new `Node` value.
//!
//! The semantics of a single instruction is captured by [`spec_execute`], a
//! whole pass over the loaded program by [`spec_run_pass`], and the
//! cycle-bounded run loop by [`spec_run_loop`]; the executable functions are
//! proved to follow them exactly.

use vstd::prelude::*;

#[allow(non_snake_case)]
pub mod Ports;

use self::Ports::{Port, PortReadResult, PortView};

verus! {

/// Different types of registers known in TIS-100.
#[derive(Debug, PartialEq, Eq, Structural, Clone, Copy)]
pub enum Register {
    /// The NIL register: reading it yields zero, writing to it discards.
    NIL,
    /// The accumulator.
    ACC,
}

/// A `Source` is either the up port, a register or a literal.
#[derive(Debug, PartialEq, Eq, Structural, Clone, Copy)]
pub enum Source {
    /// A port; always the up port.
    Port,
    /// A register.
    Register(Register),
    /// A literal value.
    Literal(i32),
}

/// A `Destination` is either the down port or a register.
#[derive(Debug, PartialEq, Eq, Structural, Clone, Copy)]
pub enum Destination {
    /// A port; always the down port.
    Port,
    /// A register.
    Register(Register),
}

/// `Instruction`s are executed by a `Node`.
#[derive(Debug, PartialEq, Eq, Structural, Clone, Copy)]
pub enum Instruction {
    /// Does nothing.
    NOP,
    /// Moves a value from `Source` to `Destination`.
    MOV(Source, Destination),
    /// Swaps the accumulator (acc) and the backup register (bac).
    SWP,
    /// Saves the accumulator (acc) to the backup register (bac).
    SAV,
    /// Adds the value of `Source` to the accumulator.
    ADD(Source),
    /// Subtracts the value of `Source` from the accumulator.
    SUB(Source),
}

/// A `Program` is a sequence of `Instruction`s. Its equality is element-wise
/// and length-sensitive.
#[derive(Debug)]
pub struct Program(pub Vec<Instruction>);

impl View for Program {
    type V = Seq<Instruction>;

    open spec fn view(&self) -> Seq<Instruction> {
        self.0@
    }
}

/// True iff the two vectors hold the same instructions in the same order.
fn same(left: &Vec<Instruction>, right: &Vec<Instruction>) -> (result: bool)
    requires
        left.len() == right.len(),
    ensures
        result == (left@ == right@),
{
    let mut index: usize = 0;
    while index < left.len()
        invariant
            index <= left.len(),
            left.len() == right.len(),
            forall|j: int| 0 <= j < index ==> left@[j] == right@[j],
        decreases left.len() - index,
    {
        if left[index] != right[index] {
            return false;
        }
        index = index + 1;
    }
    proof {
        assert(left@ =~= right@);
    }
    true
}

impl PartialEq for Program {
    fn eq(&self, other: &Program) -> (result: bool) {
        if self.0.len() == other.0.len() {
            same(&self.0, &other.0)
        } else {
            false
        }
    }
}

impl vstd::std_specs::cmp::PartialEqSpecImpl for Program {
    open spec fn obeys_eq_spec() -> bool {
        true
    }

    open spec fn eq_spec(&self, other: &Program) -> bool {
        self@ == other@
    }
}

impl Eq for Program {}

impl Clone for Program {
    fn clone(&self) -> (result: Program)
        ensures
            result@ == self@,
    {
        let mut instructions: Vec<Instruction> = Vec::new();
        let mut index: usize = 0;
        while index < self.0.len()
            invariant
                index <= self.0.len(),
                instructions@ == self.0@.subrange(0, index as int),
            decreases self.0.len() - index,
        {
            instructions.push(self.0[index]);
            index = index + 1;
            proof {
                assert(instructions@ =~= self.0@.subrange(0, index as int));
            }
        }
        proof {
            assert(instructions@ =~= self@);
        }
        Program(instructions)
    }
}

/// The mathematical view of a `Node`.
#[verifier::ext_equal]
pub ghost struct NodeView {
    /// The accumulator.
    pub acc: i32,
    /// The backup register.
    pub bac: i32,
    /// The program counter; between instructions it lies in `[0, program.len()]`.
    pub pc: nat,
    /// The loaded program.
    pub program: Seq<Instruction>,
    /// The up port, read by `Source::Port`.
    pub up: PortView,
    /// The down port, written by `Destination::Port`.
    pub down: PortView,
}

/// A `Node` models the basic execution node in TIS-100. Its state changes by
/// running `Program`s on it or executing single `Instruction`s on it; each
/// such operation returns a new `Node`.
#[derive(Debug, PartialEq, Eq)]
pub struct Node {
    /// The accumulator of the node.
    pub acc: i32,
    /// The up `Port`, used for reading.
    pub up: Port,
    /// The down `Port`, used for writing.
    pub down: Port,
    /// The backup register, reachable only through SWP and SAV.
    pub bac: i32,
    /// The program counter.
    pub pc: usize,
    /// The loaded program.
    pub program: Program,
}

impl View for Node {
    type V = NodeView;

    open spec fn view(&self) -> NodeView {
        NodeView {
            acc: self.acc,
            bac: self.bac,
            pc: self.pc as nat,
            program: self.program@,
            up: self.up@,
            down: self.down@,
        }
    }
}

/// The classification of an unsuccessful run of a `Program` on a `Node`,
/// carrying the node state at the point of failure.
#[derive(Debug)]
pub enum ErrorStatus {
    /// An instruction needed input that cannot arrive within the current
    /// pass: structurally unsatisfiable, fatal.
    Deadlock(Node),
    /// Input remained but the cycle budget ran out: inconclusive.
    Timeout(Node),
}

/// Determines how many cycles a run may take.
#[derive(Debug, Clone, Copy)]
pub enum Cycle {
    /// Run until the input values run out, bounded only by the width of the
    /// cycle counter: the same budget as `Maximum(u32::MAX)`.
    Indefinetly,
    /// Run for a maximum number of cycles.
    Maximum(u32),
}

/// Whether a run with budget `allowed` may start another pass after
/// `cycle_count` completed passes.
pub open spec fn spec_should_continu(allowed: Cycle, cycle_count: u32) -> bool {
    match allowed {
        Cycle::Indefinetly => cycle_count < u32::MAX,
        Cycle::Maximum(maximum) => cycle_count < maximum,
    }
}

impl Cycle {
    /// True iff another pass over the program is still within the budget.
    pub fn should_continu(&self, cycle_count: u32) -> (result: bool)
        ensures
            result == spec_should_continu(*self, cycle_count),
    {
        match *self {
            Cycle::Indefinetly => cycle_count < u32::MAX,
            Cycle::Maximum(maximum) => cycle_count < maximum,
        }
    }
}

/// Resolving a `Source` on a node: the up port after the read and the value
/// read, or `None` when the source is the port and no input is available.
pub open spec fn spec_resolve(n: NodeView, source: Source) -> Option<(PortView, i32)> {
    match source {
        Source::Port => if n.up.input.len() > 0 {
            Some(
                (
                    PortView {
                        input: n.up.input.subrange(1, n.up.input.len() as int),
                        output: n.up.output,
                    },
                    n.up.input[0],
                ),
            )
        } else {
            None
        },
        Source::Register(Register::NIL) => Some((n.up, 0)),
        Source::Register(Register::ACC) => Some((n.up, n.acc)),
        Source::Literal(value) => Some((n.up, value)),
    }
}

/// Writing a value to a `Destination` and retiring the instruction: the down
/// port grows on `Destination::Port`, the accumulator is replaced on
/// `Register(ACC)`, the value is discarded on `Register(NIL)`; the program
/// counter advances by one in every case.
pub open spec fn spec_move(n: NodeView, value: i32, destination: Destination) -> NodeView {
    match destination {
        Destination::Port => NodeView {
            down: PortView { input: n.down.input, output: n.down.output.push(value) },
            pc: (n.pc + 1) as nat,
            ..n
        },
        Destination::Register(Register::ACC) => NodeView {
            acc: value,
            pc: (n.pc + 1) as nat,
            ..n
        },
        Destination::Register(Register::NIL) => NodeView { pc: (n.pc + 1) as nat, ..n },
    }
}

/// The state transition of a single instruction: the node after executing
/// `instruction`, or `None` when the instruction reads the port and the up
/// input queue is empty (a local stall). The accumulator follows 32-bit
/// signed wraparound arithmetic.
pub open spec fn spec_execute(n: NodeView, instruction: Instruction) -> Option<NodeView> {
    match instruction {
        Instruction::NOP => Some(NodeView { pc: (n.pc + 1) as nat, ..n }),
        Instruction::MOV(source, destination) => match spec_resolve(n, source) {
            Some((up, value)) => Some(spec_move(NodeView { up, ..n }, value, destination)),
            None => None,
        },
        Instruction::SWP => Some(
            NodeView { acc: n.bac, bac: n.acc, pc: (n.pc + 1) as nat, ..n },
        ),
        Instruction::SAV => Some(NodeView { bac: n.acc, pc: (n.pc + 1) as nat, ..n }),
        Instruction::ADD(source) => match spec_resolve(n, source) {
            Some((up, value)) => Some(
                NodeView {
                    up,
                    acc: vstd::wrapping::i32_specs::wrapping_add(n.acc, value),
                    pc: (n.pc + 1) as nat,
                    ..n
                },
            ),
            None => None,
        },
        Instruction::SUB(source) => match spec_resolve(n, source) {
            Some((up, value)) => Some(
                NodeView {
                    up,
                    acc: vstd::wrapping::i32_specs::wrapping_sub(n.acc, value),
                    pc: (n.pc + 1) as nat,
                    ..n
                },
            ),
            None => None,
        },
    }
}

/// True iff the instruction reads a value from the up port.
pub open spec fn reads_from_port(instruction: Instruction) -> bool {
    match instruction {
        Instruction::MOV(Source::Port, _) => true,
        Instruction::ADD(Source::Port) => true,
        Instruction::SUB(Source::Port) => true,
        _ => false,
    }
}

/// Loading a program: the program is replaced wholesale and the program
/// counter is reset; registers and ports are kept.
pub open spec fn spec_load(n: NodeView, program: Seq<Instruction>) -> NodeView {
    NodeView { program, pc: 0, ..n }
}

/// The outcome of one pass over the loaded program.
pub ghost enum PassOutcome {
    /// An instruction stalled on an empty port; the node at the stall.
    Stalled(NodeView),
    /// The program counter reached the end of the program.
    Done(NodeView),
}

/// One pass: instructions are fetched and executed until the program counter
/// reaches the program end, or an instruction stalls on an empty port.
pub open spec fn spec_run_pass(n: NodeView) -> PassOutcome
    decreases n.program.len() - n.pc,
{
    if n.pc < n.program.len() {
        match spec_execute(n, n.program[n.pc as int]) {
            Some(m) => spec_run_pass(m),
            None => PassOutcome::Stalled(n),
        }
    } else {
        PassOutcome::Done(n)
    }
}

/// The outcome of a run.
pub ghost enum RunOutcome {
    /// All input was consumed; the terminal node.
    Success(NodeView),
    /// An instruction stalled on an empty port; the node at the stall.
    Deadlock(NodeView),
    /// Input remained but the cycle budget was exhausted; the node at the end
    /// of the last pass.
    Timeout(NodeView),
}

/// The cycle counter after one more completed pass; it sticks at `u32::MAX`,
/// where `spec_should_continu` can never hold for a `Cycle::Maximum` budget
/// anyway.
pub open spec fn spec_bump_cycles(cycle_count: u32) -> u32 {
    if cycle_count < u32::MAX {
        (cycle_count + 1) as u32
    } else {
        cycle_count
    }
}

/// The run loop, `passes` restarts at most: run a pass; on a stall the run is
/// a `Deadlock`; at the end of a pass, with input still available, the pass
/// restarts while the budget allows (else `Timeout`); with no input left the
/// run is a `Success`. `None` means the bound `passes` was too small to reach
/// a terminal outcome, never that the run fails.
pub open spec fn spec_run_loop(n: NodeView, allowed: Cycle, cycle_count: u32, passes: nat) -> Option<
    RunOutcome,
>
    decreases passes,
{
    match spec_run_pass(n) {
        PassOutcome::Stalled(m) => Some(RunOutcome::Deadlock(m)),
        PassOutcome::Done(m) => {
            let next_count = spec_bump_cycles(cycle_count);
            if m.up.input.len() > 0 {
                if spec_should_continu(allowed, next_count) {
                    if passes == 0 {
                        None
                    } else {
                        spec_run_loop(
                            NodeView { pc: 0, ..m },
                            allowed,
                            next_count,
                            (passes - 1) as nat,
                        )
                    }
                } else {
                    Some(RunOutcome::Timeout(m))
                }
            } else {
                Some(RunOutcome::Success(m))
            }
        },
    }
}

/// The view of a run's result as a `RunOutcome`.
pub open spec fn spec_outcome(result: Result<Node, ErrorStatus>) -> RunOutcome {
    match result {
        Ok(node) => RunOutcome::Success(node@),
        Err(ErrorStatus::Deadlock(node)) => RunOutcome::Deadlock(node@),
        Err(ErrorStatus::Timeout(node)) => RunOutcome::Timeout(node@),
    }
}

/// Two nodes whose passes end alike run alike, whatever the pass bound.
proof fn lemma_run_loop_same_pass(n1: NodeView, n2: NodeView, allowed: Cycle, cycle_count: u32)
    requires
        spec_run_pass(n1) == spec_run_pass(n2),
    ensures
        forall|passes: nat|
            spec_run_loop(n1, allowed, cycle_count, passes) == #[trigger] spec_run_loop(
                n2,
                allowed,
                cycle_count,
                passes,
            ),
{
    assert forall|passes: nat|
        spec_run_loop(n1, allowed, cycle_count, passes) == #[trigger] spec_run_loop(
            n2,
            allowed,
            cycle_count,
            passes,
        ) by {
        assert(spec_run_loop(n1, allowed, cycle_count, passes) == spec_run_loop(
            n2,
            allowed,
            cycle_count,
            passes,
        ));
    }
}

/// A pass bound large enough to reach a terminal outcome cannot be
/// contradicted by a larger one: the run loop has at most one outcome.
pub proof fn lemma_run_loop_mono(
    n: NodeView,
    allowed: Cycle,
    cycle_count: u32,
    passes1: nat,
    passes2: nat,
)
    requires
        passes1 <= passes2,
        spec_run_loop(n, allowed, cycle_count, passes1) is Some,
    ensures
        spec_run_loop(n, allowed, cycle_count, passes2) == spec_run_loop(
            n,
            allowed,
            cycle_count,
            passes1,
        ),
    decreases passes1,
{
    match spec_run_pass(n) {
        PassOutcome::Stalled(m) => {},
        PassOutcome::Done(m) => {
            let next_count = spec_bump_cycles(cycle_count);
            if m.up.input.len() > 0 && spec_should_continu(allowed, next_count) {
                lemma_run_loop_mono(
                    NodeView { pc: 0, ..m },
                    allowed,
                    next_count,
                    (passes1 - 1) as nat,
                    (passes2 - 1) as nat,
                );
            }
        },
    }
}

/// Executing an instruction that does not read from an empty up-port input
/// queue always succeeds and advances the program counter by exactly one.
pub proof fn lemma_execute_advances_pc(n: NodeView, instruction: Instruction)
    requires
        !(reads_from_port(instruction) && n.up.input.len() == 0),
    ensures
        spec_execute(n, instruction) is Some,
        spec_execute(n, instruction)->Some_0.pc == n.pc + 1,
{
}

/// Executing SWP twice restores the prior (acc, bac) pair: SWP is an
/// involution on the register pair.
pub proof fn lemma_swp_involution(n: NodeView)
    ensures
        spec_execute(n, Instruction::SWP) is Some,
        spec_execute(spec_execute(n, Instruction::SWP)->Some_0, Instruction::SWP) is Some,
        spec_execute(spec_execute(n, Instruction::SWP)->Some_0, Instruction::SWP)->Some_0.acc
            == n.acc,
        spec_execute(spec_execute(n, Instruction::SWP)->Some_0, Instruction::SWP)->Some_0.bac
            == n.bac,
{
}

/// SAV followed by MOV(Register(ACC), Register(ACC)) leaves the accumulator
/// unchanged, and the backup register then equals the prior accumulator.
pub proof fn lemma_sav_then_mov_acc(n: NodeView)
    ensures
        spec_execute(n, Instruction::SAV) is Some,
        spec_execute(
            spec_execute(n, Instruction::SAV)->Some_0,
            Instruction::MOV(Source::Register(Register::ACC), Destination::Register(Register::ACC)),
        ) is Some,
        spec_execute(
            spec_execute(n, Instruction::SAV)->Some_0,
            Instruction::MOV(Source::Register(Register::ACC), Destination::Register(Register::ACC)),
        )->Some_0.acc == n.acc,
        spec_execute(
            spec_execute(n, Instruction::SAV)->Some_0,
            Instruction::MOV(Source::Register(Register::ACC), Destination::Register(Register::ACC)),
        )->Some_0.bac == n.acc,
{
}

/// A node whose loaded program and up-port input queue are both empty runs to
/// `Success` at once, with the node (and so its down-port output) unchanged.
pub proof fn lemma_empty_program_empty_input(n: NodeView, allowed: Cycle)
    requires
        n.program.len() == 0,
        n.up.input.len() == 0,
    ensures
        spec_run_loop(n, allowed, 0, 0) == Some(RunOutcome::Success(n)),
{
}

impl Node {
    /// Create a `Node` with zeroed registers and program counter, an empty
    /// program and empty ports.
    pub fn new() -> (node: Node)
        ensures
            node@.acc == 0,
            node@.bac == 0,
            node@.pc == 0,
            node@.program == Seq::<Instruction>::empty(),
            node@.up.input == Seq::<i32>::empty(),
            node@.up.output == Seq::<i32>::empty(),
            node@.down.input == Seq::<i32>::empty(),
            node@.down.output == Seq::<i32>::empty(),
    {
        Node {
            acc: 0,
            bac: 0,
            pc: 0,
            program: Program(Vec::new()),
            up: Port::new(Vec::new()),
            down: Port::new(Vec::new()),
        }
    }

    /// Load a program into this `Node`: the program is replaced wholesale and
    /// the program counter is reset; registers and ports are kept.
    pub fn load(&self, program: Program) -> (node: Node)
        ensures
            node@ == spec_load(self@, program@),
    {
        let node = Node {
            acc: self.acc,
            bac: self.bac,
            pc: 0,
            program,
            up: self.up.clone(),
            down: self.down.clone(),
        };
        proof {
            assert(node@ =~= spec_load(self@, program@));
        }
        node
    }

    /// The instruction at the program counter, or `None` when the counter has
    /// reached the end of the program.
    fn fetch_instruction(&self) -> (result: Option<Instruction>)
        ensures
            match result {
                Some(instruction) => self@.pc < self@.program.len() && self@.pc < usize::MAX
                    && instruction == self@.program[self@.pc as int],
                None => self@.pc >= self@.program.len(),
            },
    {
        if self.pc < self.program.0.len() {
            Some(self.program.0[self.pc])
        } else {
            None
        }
    }

    /// Create a `Node` from self with the program counter incremented.
    fn increment_pc(&self) -> (node: Node)
        requires
            self@.pc < usize::MAX,
        ensures
            node@ == (NodeView { pc: (self@.pc + 1) as nat, ..self@ }),
    {
        let node = Node {
            acc: self.acc,
            bac: self.bac,
            pc: self.pc + 1,
            program: self.program.clone(),
            up: self.up.clone(),
            down: self.down.clone(),
        };
        proof {
            assert(node@ =~= (NodeView { pc: (self@.pc + 1) as nat, ..self@ }));
        }
        node
    }

    /// Create a `Node` from self with a prescribed program counter value.
    pub fn set_pc(&self, pc: usize) -> (node: Node)
        ensures
            node@ == (NodeView { pc: pc as nat, ..self@ }),
    {
        let node = Node {
            acc: self.acc,
            bac: self.bac,
            pc,
            program: self.program.clone(),
            up: self.up.clone(),
            down: self.down.clone(),
        };
        proof {
            assert(node@ =~= (NodeView { pc: pc as nat, ..self@ }));
        }
        node
    }

    /// Create a `Node` from self with a prescribed accumulator value.
    pub fn set_acc(&self, acc: i32) -> (node: Node)
        ensures
            node@ == (NodeView { acc, ..self@ }),
    {
        let node = Node {
            acc,
            bac: self.bac,
            pc: self.pc,
            program: self.program.clone(),
            up: self.up.clone(),
            down: self.down.clone(),
        };
        proof {
            assert(node@ =~= (NodeView { acc, ..self@ }));
        }
        node
    }

    /// Create a `Node` from self with a prescribed backup register value.
    pub fn set_bac(&self, bac: i32) -> (node: Node)
        ensures
            node@ == (NodeView { bac, ..self@ }),
    {
        let node = Node {
            acc: self.acc,
            bac,
            pc: self.pc,
            program: self.program.clone(),
            up: self.up.clone(),
            down: self.down.clone(),
        };
        proof {
            assert(node@ =~= (NodeView { bac, ..self@ }));
        }
        node
    }

    /// Create a `Node` from self with a prescribed up port.
    pub fn set_up(&self, up: Port) -> (node: Node)
        ensures
            node@ == (NodeView { up: up@, ..self@ }),
    {
        let node = Node {
            acc: self.acc,
            bac: self.bac,
            pc: self.pc,
            program: self.program.clone(),
            up,
            down: self.down.clone(),
        };
        proof {
            assert(node@ =~= (NodeView { up: node.up@, ..self@ }));
        }
        node
    }

    /// Create a `Node` from self with a prescribed down port.
    pub fn set_down(&self, down: Port) -> (node: Node)
        ensures
            node@ == (NodeView { down: down@, ..self@ }),
    {
        let node = Node {
            acc: self.acc,
            bac: self.bac,
            pc: self.pc,
            program: self.program.clone(),
            up: self.up.clone(),
            down,
        };
        proof {
            assert(node@ =~= (NodeView { down: node.down@, ..self@ }));
        }
        node
    }

    /// Resolve a `Source` to the up port after the read and the value read,
    /// or `None` when the source is the port and no input is available.
    fn value_from(&self, source: Source) -> (result: Option<(Port, i32)>)
        ensures
            match result {
                Some(pair) => spec_resolve(self@, source) == Some((pair.0@, pair.1)),
                None => spec_resolve(self@, source) is None,
            },
    {
        match source {
            Source::Port => match self.up.read() {
                PortReadResult::Success(next_port, value) => Some((next_port, value)),
                PortReadResult::Failure => None,
            },
            Source::Register(Register::NIL) => Some((self.up.clone(), 0)),
            Source::Register(Register::ACC) => Some((self.up.clone(), self.acc)),
            Source::Literal(value) => Some((self.up.clone(), value)),
        }
    }

    /// Write a value to a `Destination` and retire the instruction.
    fn move_value(&self, value: i32, destination: Destination) -> (result: Option<Node>)
        requires
            self@.pc < usize::MAX,
        ensures
            match result {
                Some(node) => node@ == spec_move(self@, value, destination),
                None => false,
            },
    {
        match destination {
            Destination::Port => {
                let next_down = self.down.write(value);
                let node = self.increment_pc().set_down(next_down);
                proof {
                    assert(node@ =~= spec_move(self@, value, destination));
                }
                Some(node)
            },
            Destination::Register(Register::ACC) => {
                let node = self.increment_pc().set_acc(value);
                proof {
                    assert(node@ =~= spec_move(self@, value, destination));
                }
                Some(node)
            },
            _ => {
                let result = self.nop();
                proof {
                    assert(result->Some_0@ =~= spec_move(self@, value, destination));
                }
                result
            },
        }
    }

    fn nop(&self) -> (result: Option<Node>)
        requires
            self@.pc < usize::MAX,
        ensures
            match result {
                Some(node) => spec_execute(self@, Instruction::NOP) == Some(node@),
                None => false,
            },
    {
        Some(self.increment_pc())
    }

    fn mov(&self, source: Source, destination: Destination) -> (result: Option<Node>)
        requires
            self@.pc < usize::MAX,
        ensures
            match result {
                Some(node) => spec_execute(self@, Instruction::MOV(source, destination)) == Some(
                    node@,
                ),
                None => spec_execute(self@, Instruction::MOV(source, destination)) is None,
            },
    {
        match self.value_from(source) {
            Some((next_up_port, value)) => self.set_up(next_up_port).move_value(
                value,
                destination,
            ),
            None => None,
        }
    }

    fn swap(&self) -> (result: Option<Node>)
        requires
            self@.pc < usize::MAX,
        ensures
            match result {
                Some(node) => spec_execute(self@, Instruction::SWP) == Some(node@),
                None => false,
            },
    {
        let acc: i32 = self.acc;
        let bac: i32 = self.bac;
        let node = self.increment_pc().set_acc(bac).set_bac(acc);
        proof {
            assert(Some(node@) =~= spec_execute(self@, Instruction::SWP));
        }
        Some(node)
    }

    fn save(&self) -> (result: Option<Node>)
        requires
            self@.pc < usize::MAX,
        ensures
            match result {
                Some(node) => spec_execute(self@, Instruction::SAV) == Some(node@),
                None => false,
            },
    {
        let node = self.increment_pc().set_bac(self.acc);
        proof {
            assert(Some(node@) =~= spec_execute(self@, Instruction::SAV));
        }
        Some(node)
    }

    fn add(&self, source: Source) -> (result: Option<Node>)
        requires
            self@.pc < usize::MAX,
        ensures
            match result {
                Some(node) => spec_execute(self@, Instruction::ADD(source)) == Some(node@),
                None => spec_execute(self@, Instruction::ADD(source)) is None,
            },
    {
        match self.value_from(source) {
            Some((next_up_port, value)) => {
                let node = self.set_up(next_up_port).add_value(value);
                proof {
                    assert(Some(node@) =~= spec_execute(self@, Instruction::ADD(source)));
                }
                Some(node)
            },
            None => None,
        }
    }

    /// The node after adding a value to the accumulator, with 32-bit signed
    /// wraparound.
    fn add_value(&self, value: i32) -> (node: Node)
        requires
            self@.pc < usize::MAX,
        ensures
            node@ == (NodeView {
                acc: vstd::wrapping::i32_specs::wrapping_add(self@.acc, value),
                pc: (self@.pc + 1) as nat,
                ..self@
            }),
    {
        let node = self.increment_pc().set_acc(self.acc.wrapping_add(value));
        proof {
            assert(node@ =~= (NodeView {
                acc: vstd::wrapping::i32_specs::wrapping_add(self@.acc, value),
                pc: (self@.pc + 1) as nat,
                ..self@
            }));
        }
        node
    }

    fn subtract(&self, source: Source) -> (result: Option<Node>)
        requires
            self@.pc < usize::MAX,
        ensures
            match result {
                Some(node) => spec_execute(self@, Instruction::SUB(source)) == Some(node@),
                None => spec_execute(self@, Instruction::SUB(source)) is None,
            },
    {
        match self.value_from(source) {
            Some((next_up_port, value)) => {
                let node = self.set_up(next_up_port).subtract_value(value);
                proof {
                    assert(Some(node@) =~= spec_execute(self@, Instruction::SUB(source)));
                }
                Some(node)
            },
            None => None,
        }
    }

    /// The node after subtracting a value from the accumulator, with 32-bit
    /// signed wraparound.
    fn subtract_value(&self, value: i32) -> (node: Node)
        requires
            self@.pc < usize::MAX,
        ensures
            node@ == (NodeView {
                acc: vstd::wrapping::i32_specs::wrapping_sub(self@.acc, value),
                pc: (self@.pc + 1) as nat,
                ..self@
            }),
    {
        let node = self.increment_pc().set_acc(self.acc.wrapping_sub(value));
        proof {
            assert(node@ =~= (NodeView {
                acc: vstd::wrapping::i32_specs::wrapping_sub(self@.acc, value),
                pc: (self@.pc + 1) as nat,
                ..self@
            }));
        }
        node
    }

    /// Execute the `instruction` on this `Node`. Returns a `Node` that
    /// reflects the changes the `instruction` has on this `Node`, or `None`
    /// when the instruction reads the port and no input is available.
    pub fn execute(&self, instruction: Instruction) -> (result: Option<Node>)
        requires
            self@.pc < usize::MAX,
        ensures
            match result {
                Some(node) => spec_execute(self@, instruction) == Some(node@),
                None => spec_execute(self@, instruction) is None,
            },
    {
        match instruction {
            Instruction::NOP => self.nop(),
            Instruction::MOV(source, destination) => self.mov(source, destination),
            Instruction::SWP => self.swap(),
            Instruction::SAV => self.save(),
            Instruction::ADD(source) => self.add(source),
            Instruction::SUB(source) => self.subtract(source),
        }
    }

    /// Run the loaded program with the given cycle budget. The result is the
    /// unique terminal outcome of [`spec_run_loop`] from this node: `Ok` when
    /// all input was consumed, `Err(Deadlock)` when an instruction stalled on
    /// an empty port, `Err(Timeout)` when input remained but the budget ran
    /// out.
    pub fn run(&self, allowed_cycles: Cycle) -> (result: Result<Node, ErrorStatus>)
        ensures
            exists|passes: nat|
                #[trigger] spec_run_loop(self@, allowed_cycles, 0, passes) == Some(
                    spec_outcome(result),
                ),
    {
        let mut node: Node = self.clone();
        let mut cycle_count: u32 = 0;
        let ghost start: NodeView = self@;
        let ghost mut restarts: nat = 0nat;

        loop
            invariant
                start == self@,
                forall|passes: nat|
                    spec_run_loop(start, allowed_cycles, 0, passes + restarts)
                        == #[trigger] spec_run_loop(node@, allowed_cycles, cycle_count, passes),
            decreases u32::MAX - cycle_count, node@.program.len() - node@.pc,
        {
            match node.fetch_instruction() {
                Some(instruction) => {
                    match node.execute(instruction) {
                        Some(next_node) => {
                            proof {
                                assert(spec_run_pass(node@) == spec_run_pass(next_node@));
                                lemma_run_loop_same_pass(
                                    node@,
                                    next_node@,
                                    allowed_cycles,
                                    cycle_count,
                                );
                            }
                            node = next_node;
                        },
                        None => {
                            proof {
                                assert(spec_run_pass(node@) == PassOutcome::Stalled(node@));
                                assert(spec_run_loop(node@, allowed_cycles, cycle_count, 0nat)
                                    == Some(RunOutcome::Deadlock(node@)));
                                assert(spec_run_loop(start, allowed_cycles, 0, restarts) == Some(
                                    RunOutcome::Deadlock(node@),
                                ));
                            }
                            return Err(ErrorStatus::Deadlock(node));
                        },
                    }
                },
                None => {
                    proof {
                        assert(spec_run_pass(node@) == PassOutcome::Done(node@));
                    }
                    let next_count: u32 = if cycle_count < u32::MAX {
                        cycle_count + 1
                    } else {
                        cycle_count
                    };
                    proof {
                        assert(next_count == spec_bump_cycles(cycle_count));
                    }
                    if node.up.available() {
                        if allowed_cycles.should_continu(next_count) {
                            proof {
                                let restarted = NodeView { pc: 0, ..node@ };
                                assert forall|passes: nat|
                                    spec_run_loop(start, allowed_cycles, 0, passes + (restarts
                                        + 1)) == #[trigger] spec_run_loop(
                                        restarted,
                                        allowed_cycles,
                                        next_count,
                                        passes,
                                    ) by {
                                    assert(spec_run_loop(
                                        node@,
                                        allowed_cycles,
                                        cycle_count,
                                        passes + 1,
                                    ) == spec_run_loop(restarted, allowed_cycles, next_count, passes));
                                }
                                restarts = restarts + 1;
                            }
                            node = node.set_pc(0);
                            cycle_count = next_count;
                        } else {
                            proof {
                                assert(spec_run_loop(node@, allowed_cycles, cycle_count, 0nat)
                                    == Some(RunOutcome::Timeout(node@)));
                                assert(spec_run_loop(start, allowed_cycles, 0, restarts) == Some(
                                    RunOutcome::Timeout(node@),
                                ));
                            }
                            return Err(ErrorStatus::Timeout(node));
                        }
                    } else {
                        proof {
                            assert(spec_run_loop(node@, allowed_cycles, cycle_count, 0nat) == Some(
                                RunOutcome::Success(node@),
                            ));
                            assert(spec_run_loop(start, allowed_cycles, 0, restarts) == Some(
                                RunOutcome::Success(node@),
                            ));
                        }
                        return Ok(node);
                    }
                },
            }
        }
    }
}

impl Clone for Node {
    fn clone(&self) -> (result: Node)
        ensures
            result@ == self@,
    {
        let node = Node {
            acc: self.acc,
            bac: self.bac,
            pc: self.pc,
            program: self.program.clone(),
            up: self.up.clone(),
            down: self.down.clone(),
        };
        proof {
            assert(node@ =~= self@);
        }
        node
    }
}

} // verus!

