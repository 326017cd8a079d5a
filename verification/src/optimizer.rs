//! The `optimizer` module enumerates `Program`s from a single counter and
//! searches that enumeration for the first program that the oracle accepts.
//!
//! Each counter value is decoded into a program by reading it as a mixed-radix
//! number over a fixed alphabet of 33 concrete instructions, least significant
//! digit first; the counter value 0 decodes to the empty program and programs
//! grow in instruction count as the counter grows. The module also assigns
//! each construct a `content`: a numeric complexity score. The enumeration
//! order only approximates the content ordering, so the search returns the
//! first enumerable match, not a provably content-minimal one.

use vstd::prelude::*;

use crate::check::{check, spec_check};
use crate::TIS_100::{Destination, Instruction, Node, NodeView, Program, Register, Source};

verus! {

/// The magnitude of a value.
pub open spec fn spec_abs(value: i32) -> nat {
    if value < 0 {
        (-(value as int)) as nat
    } else {
        value as nat
    }
}

/// The content of a `Source`: a literal costs one more than its magnitude,
/// any other source costs one.
pub open spec fn spec_source_content(source: Source) -> nat {
    match source {
        Source::Literal(value) => 1 + spec_abs(value),
        _ => 1,
    }
}

/// The content of a `Destination`: always one.
pub open spec fn spec_destination_content(destination: Destination) -> nat {
    1
}

/// The content of an `Instruction`: NOP, SWP and SAV cost one; ADD and SUB
/// cost one more than their source; MOV costs one more than its source and
/// destination together.
pub open spec fn spec_instruction_content(instruction: Instruction) -> nat {
    match instruction {
        Instruction::NOP => 1,
        Instruction::MOV(source, destination) => 1 + spec_source_content(source)
            + spec_destination_content(destination),
        Instruction::SWP => 1,
        Instruction::SAV => 1,
        Instruction::ADD(source) => 1 + spec_source_content(source),
        Instruction::SUB(source) => 1 + spec_source_content(source),
    }
}

/// The content of a program: the sum of the contents of its instructions.
pub open spec fn spec_program_content(instructions: Seq<Instruction>) -> nat
    decreases instructions.len(),
{
    if instructions.len() == 0 {
        0
    } else {
        spec_program_content(instructions.drop_last()) + spec_instruction_content(
            instructions.last(),
        )
    }
}

/// The content of a `Source` is at most one more than the largest magnitude
/// an `i32` can hold.
proof fn lemma_source_content_bound(source: Source)
    ensures
        spec_source_content(source) <= 0x8000_0001,
{
}

/// The content of an `Instruction` is at most three more than the largest
/// magnitude an `i32` can hold.
proof fn lemma_instruction_content_bound(instruction: Instruction)
    ensures
        spec_instruction_content(instruction) <= 0x8000_0003,
{
    match instruction {
        Instruction::MOV(source, _) => lemma_source_content_bound(source),
        Instruction::ADD(source) => lemma_source_content_bound(source),
        Instruction::SUB(source) => lemma_source_content_bound(source),
        _ => {},
    }
}

/// The content of a prefix of a program never exceeds the whole program's.
proof fn lemma_program_content_take_bound(instructions: Seq<Instruction>, i: int)
    requires
        0 <= i <= instructions.len(),
    ensures
        spec_program_content(instructions.take(i)) <= spec_program_content(instructions),
    decreases instructions.len() - i,
{
    if i == instructions.len() {
        assert(instructions.take(i) =~= instructions);
    } else {
        lemma_program_content_take_bound(instructions, i + 1);
        assert(instructions.take(i + 1).drop_last() =~= instructions.take(i));
        assert(spec_program_content(instructions.take(i + 1)) == spec_program_content(
            instructions.take(i),
        ) + spec_instruction_content(instructions.take(i + 1).last()));
    }
}

/// Allows one to determine the content of certain constructs, e.g.
/// `Program`s or `Instruction`s. The content is a measure of how complex a
/// construct is.
pub trait Content {
    /// The content of the construct, as a mathematical value.
    spec fn spec_content(&self) -> nat;

    /// The content of the construct.
    fn content(&self) -> (result: u32)
        requires
            self.spec_content() <= u32::MAX,
        ensures
            result == self.spec_content(),
    ;
}

impl Content for Source {
    open spec fn spec_content(&self) -> nat {
        spec_source_content(*self)
    }

    fn content(&self) -> (result: u32) {
        match *self {
            Source::Literal(value) => {
                let magnitude: u32 = if value == i32::MIN {
                    0x8000_0000u32
                } else if value < 0 {
                    (-value) as u32
                } else {
                    value as u32
                };
                1 + magnitude
            },
            _ => 1,
        }
    }
}

impl Content for Destination {
    open spec fn spec_content(&self) -> nat {
        spec_destination_content(*self)
    }

    fn content(&self) -> (result: u32) {
        1
    }
}

impl Content for Instruction {
    open spec fn spec_content(&self) -> nat {
        spec_instruction_content(*self)
    }

    fn content(&self) -> (result: u32) {
        match *self {
            Instruction::NOP => 1,
            Instruction::SWP => 1,
            Instruction::SAV => 1,
            Instruction::MOV(source, destination) => {
                proof {
                    lemma_source_content_bound(source);
                }
                1 + source.content() + destination.content()
            },
            Instruction::ADD(source) => {
                proof {
                    lemma_source_content_bound(source);
                }
                1 + source.content()
            },
            Instruction::SUB(source) => {
                proof {
                    lemma_source_content_bound(source);
                }
                1 + source.content()
            },
        }
    }
}

impl Content for Program {
    open spec fn spec_content(&self) -> nat {
        spec_program_content(self@)
    }

    fn content(&self) -> (result: u32) {
        let mut sum: u32 = 0;
        let mut index: usize = 0;
        while index < self.0.len()
            invariant
                index <= self.0.len(),
                spec_program_content(self@) <= u32::MAX,
                sum == spec_program_content(self@.take(index as int)),
            decreases self.0.len() - index,
        {
            let instruction = self.0[index];
            proof {
                lemma_instruction_content_bound(instruction);
                lemma_program_content_take_bound(self@, index + 1);
                assert(self@.take(index + 1).drop_last() =~= self@.take(index as int));
                assert(spec_program_content(self@.take(index + 1)) == spec_program_content(
                    self@.take(index as int),
                ) + spec_instruction_content(instruction));
            }
            sum = sum + instruction.content();
            index = index + 1;
        }
        proof {
            assert(self@.take(index as int) =~= self@);
        }
        sum
    }
}

/// The base-`base` digits of `n`, least significant first; empty for 0.
pub open spec fn spec_digits(n: nat, base: u32) -> Seq<u32>
    decreases n,
    when base >= 2
    via spec_digits_decreases
{
    if n == 0 {
        Seq::empty()
    } else {
        seq![(n % (base as nat)) as u32] + spec_digits(n / (base as nat), base)
    }
}

#[via_fn]
proof fn spec_digits_decreases(n: nat, base: u32) {
    assert(n > 0 && base >= 2 ==> n / (base as nat) < n) by (nonlinear_arith);
}

/// The instruction a single digit stands for: the fixed alphabet of the
/// enumeration, all NOP/SWP/SAV/ADD/SUB/MOV combinations over the operand set
/// {Port, Register(NIL), Register(ACC), Literal(-1), Literal(0), Literal(1)}.
pub open spec fn spec_instruction_map(digit: u32) -> Instruction {
    let index = digit % 33;
    if index == 0 {
        Instruction::NOP
    } else if index == 1 {
        Instruction::SWP
    } else if index == 2 {
        Instruction::SAV
    } else if index == 3 {
        Instruction::ADD(Source::Port)
    } else if index == 4 {
        Instruction::ADD(Source::Register(Register::NIL))
    } else if index == 5 {
        Instruction::ADD(Source::Register(Register::ACC))
    } else if index == 6 {
        Instruction::ADD(Source::Literal(0))
    } else if index == 7 {
        Instruction::ADD(Source::Literal(1))
    } else if index == 8 {
        Instruction::ADD(Source::Literal(-1i32))
    } else if index == 9 {
        Instruction::SUB(Source::Port)
    } else if index == 10 {
        Instruction::SUB(Source::Register(Register::NIL))
    } else if index == 11 {
        Instruction::SUB(Source::Register(Register::ACC))
    } else if index == 12 {
        Instruction::SUB(Source::Literal(0))
    } else if index == 13 {
        Instruction::SUB(Source::Literal(1))
    } else if index == 14 {
        Instruction::SUB(Source::Literal(-1i32))
    } else if index == 15 {
        Instruction::MOV(Source::Port, Destination::Port)
    } else if index == 16 {
        Instruction::MOV(Source::Register(Register::NIL), Destination::Port)
    } else if index == 17 {
        Instruction::MOV(Source::Register(Register::ACC), Destination::Port)
    } else if index == 18 {
        Instruction::MOV(Source::Literal(0), Destination::Port)
    } else if index == 19 {
        Instruction::MOV(Source::Literal(1), Destination::Port)
    } else if index == 20 {
        Instruction::MOV(Source::Literal(-1i32), Destination::Port)
    } else if index == 21 {
        Instruction::MOV(Source::Port, Destination::Register(Register::NIL))
    } else if index == 22 {
        Instruction::MOV(Source::Register(Register::NIL), Destination::Register(Register::NIL))
    } else if index == 23 {
        Instruction::MOV(Source::Register(Register::ACC), Destination::Register(Register::NIL))
    } else if index == 24 {
        Instruction::MOV(Source::Literal(0), Destination::Register(Register::NIL))
    } else if index == 25 {
        Instruction::MOV(Source::Literal(1), Destination::Register(Register::NIL))
    } else if index == 26 {
        Instruction::MOV(Source::Literal(-1i32), Destination::Register(Register::NIL))
    } else if index == 27 {
        Instruction::MOV(Source::Port, Destination::Register(Register::ACC))
    } else if index == 28 {
        Instruction::MOV(Source::Register(Register::NIL), Destination::Register(Register::ACC))
    } else if index == 29 {
        Instruction::MOV(Source::Register(Register::ACC), Destination::Register(Register::ACC))
    } else if index == 30 {
        Instruction::MOV(Source::Literal(0), Destination::Register(Register::ACC))
    } else if index == 31 {
        Instruction::MOV(Source::Literal(1), Destination::Register(Register::ACC))
    } else {
        Instruction::MOV(Source::Literal(-1i32), Destination::Register(Register::ACC))
    }
}

/// The program a counter value encodes: its base-33 digits, least significant
/// first, each mapped to an instruction of the fixed alphabet.
pub open spec fn spec_decode(counter: nat) -> Seq<Instruction> {
    spec_digits(counter, 33).map(|_index: int, digit: u32| spec_instruction_map(digit))
}

/// The base-`base` digits of `n`, least significant first; empty for 0.
fn digits_of(n: u32, base: u32) -> (digits: Vec<u32>)
    requires
        base >= 2,
    ensures
        digits@ == spec_digits(n as nat, base),
{
    let mut digits: Vec<u32> = Vec::new();
    let mut remaining: u32 = n;
    while remaining > 0
        invariant
            base >= 2,
            spec_digits(n as nat, base) == digits@ + spec_digits(remaining as nat, base),
        decreases remaining,
    {
        let ghost before: nat = remaining as nat;
        let digit: u32 = remaining % base;
        digits.push(digit);
        remaining = remaining / base;
        proof {
            assert(spec_digits(before, base) == seq![digit] + spec_digits(
                remaining as nat,
                base,
            ));
            assert(digits@ + spec_digits(remaining as nat, base) =~= digits@.drop_last() + (
            seq![digit] + spec_digits(remaining as nat, base)));
            assert(spec_digits(n as nat, base) =~= digits@ + spec_digits(remaining as nat, base));
        }
    }
    proof {
        assert(spec_digits(n as nat, base) =~= digits@);
    }
    digits
}

/// The instruction a single digit stands for.
fn instruction_map(index: u32) -> (instruction: Instruction)
    ensures
        instruction == spec_instruction_map(index),
{
    match index % 33 {
        0 => Instruction::NOP,
        1 => Instruction::SWP,
        2 => Instruction::SAV,
        3 => Instruction::ADD(Source::Port),
        4 => Instruction::ADD(Source::Register(Register::NIL)),
        5 => Instruction::ADD(Source::Register(Register::ACC)),
        6 => Instruction::ADD(Source::Literal(0)),
        7 => Instruction::ADD(Source::Literal(1)),
        8 => Instruction::ADD(Source::Literal(-1)),
        9 => Instruction::SUB(Source::Port),
        10 => Instruction::SUB(Source::Register(Register::NIL)),
        11 => Instruction::SUB(Source::Register(Register::ACC)),
        12 => Instruction::SUB(Source::Literal(0)),
        13 => Instruction::SUB(Source::Literal(1)),
        14 => Instruction::SUB(Source::Literal(-1)),
        15 => Instruction::MOV(Source::Port, Destination::Port),
        16 => Instruction::MOV(Source::Register(Register::NIL), Destination::Port),
        17 => Instruction::MOV(Source::Register(Register::ACC), Destination::Port),
        18 => Instruction::MOV(Source::Literal(0), Destination::Port),
        19 => Instruction::MOV(Source::Literal(1), Destination::Port),
        20 => Instruction::MOV(Source::Literal(-1), Destination::Port),
        21 => Instruction::MOV(Source::Port, Destination::Register(Register::NIL)),
        22 => Instruction::MOV(Source::Register(Register::NIL), Destination::Register(Register::NIL)),
        23 => Instruction::MOV(Source::Register(Register::ACC), Destination::Register(Register::NIL)),
        24 => Instruction::MOV(Source::Literal(0), Destination::Register(Register::NIL)),
        25 => Instruction::MOV(Source::Literal(1), Destination::Register(Register::NIL)),
        26 => Instruction::MOV(Source::Literal(-1), Destination::Register(Register::NIL)),
        27 => Instruction::MOV(Source::Port, Destination::Register(Register::ACC)),
        28 => Instruction::MOV(Source::Register(Register::NIL), Destination::Register(Register::ACC)),
        29 => Instruction::MOV(Source::Register(Register::ACC), Destination::Register(Register::ACC)),
        30 => Instruction::MOV(Source::Literal(0), Destination::Register(Register::ACC)),
        31 => Instruction::MOV(Source::Literal(1), Destination::Register(Register::ACC)),
        32 => Instruction::MOV(Source::Literal(-1), Destination::Register(Register::ACC)),
        _ => Instruction::NOP,
    }
}

/// Decode a counter value into the `Program` it enumerates. Decoding is a
/// total function of the counter: every value yields a program.
pub fn decode_program(counter: u32) -> (program: Program)
    ensures
        program@ == spec_decode(counter as nat),
{
    let digits = digits_of(counter, 33);
    let mut instructions: Vec<Instruction> = Vec::new();
    let mut index: usize = 0;
    while index < digits.len()
        invariant
            index <= digits.len(),
            digits@ == spec_digits(counter as nat, 33),
            instructions@.len() == index,
            forall|j: int|
                0 <= j < index ==> instructions@[j] == spec_instruction_map(digits@[j]),
        decreases digits.len() - index,
    {
        instructions.push(instruction_map(digits[index]));
        index = index + 1;
    }
    proof {
        assert(instructions@ =~= spec_decode(counter as nat));
    }
    Program(instructions)
}

/// Decoding the counter value 0 yields the empty program.
pub proof fn lemma_decode_zero()
    ensures
        spec_decode(0) == Seq::<Instruction>::empty(),
{
    assert(spec_decode(0) =~= Seq::<Instruction>::empty());
}

/// The `k`-th power of 33: the number of counter values whose digit expansion
/// has at most `k` digits.
pub open spec fn pow33(k: nat) -> nat
    decreases k,
{
    if k == 0 {
        1
    } else {
        33 * pow33((k - 1) as nat)
    }
}

proof fn lemma_pow33_pos(k: nat)
    ensures
        pow33(k) >= 1,
    decreases k,
{
    if k > 0 {
        lemma_pow33_pos((k - 1) as nat);
    }
}

/// A counter whose digit expansion has at most `k` digits lies below `33^k`.
proof fn lemma_digits_len_bound(n: nat, k: nat)
    requires
        spec_digits(n, 33).len() <= k,
    ensures
        n < pow33(k),
    decreases k,
{
    if n == 0 {
        lemma_pow33_pos(k);
    } else {
        assert(spec_digits(n, 33).len() == 1 + spec_digits(n / 33, 33).len());
        lemma_digits_len_bound(n / 33, (k - 1) as nat);
        assert(n == 33 * (n / 33) + n % 33) by {
            vstd::arithmetic::div_mod::lemma_fundamental_div_mod(n as int, 33);
        }
        assert(33 * (n / 33) <= 33 * (pow33((k - 1) as nat) - 1)) by (nonlinear_arith)
            requires
                n / 33 < pow33((k - 1) as nat),
        ;
    }
}

/// Iterator over `Program`s, in enumeration order from the empty program.
pub struct ProgramIterator {
    current: u32,
}

impl ProgramIterator {
    /// The counter of the next program to be produced.
    pub closed spec fn counter(&self) -> nat {
        self.current as nat
    }

    /// Create a `ProgramIterator`, positioned at the empty program.
    pub fn new() -> (iterator: ProgramIterator)
        ensures
            iterator.counter() == 0,
    {
        ProgramIterator { current: 0 }
    }

    /// The next program in enumeration order. Returns `None` only once the
    /// counter has exhausted its machine width.
    pub fn next(&mut self) -> (result: Option<Program>)
        ensures
            old(self).counter() < u32::MAX ==> {
                &&& final(self).counter() == old(self).counter() + 1
                &&& result matches Some(program) && program@ == spec_decode(old(self).counter())
            },
            old(self).counter() == u32::MAX ==> result is None && final(self).counter() == old(
                self,
            ).counter(),
    {
        if self.current == u32::MAX {
            return None;
        }
        let program = decode_program(self.current);
        self.current = self.current + 1;
        Some(program)
    }
}

/// Iterator over `Register`s.
pub struct RegisterIterator {
    current: u32,
}

impl RegisterIterator {
    /// How many times `next` has been called.
    pub closed spec fn position(&self) -> nat {
        self.current as nat
    }

    /// Create a `RegisterIterator`.
    pub fn new() -> (iterator: RegisterIterator)
        ensures
            iterator.position() == 0,
    {
        RegisterIterator { current: 0 }
    }

    /// The registers, in order: `NIL`, then `ACC`, then nothing.
    pub fn next(&mut self) -> (result: Option<Register>)
        ensures
            final(self).position() == (if old(self).position() < u32::MAX {
                old(self).position() + 1
            } else {
                old(self).position()
            }),
            result == (if old(self).position() == 0 {
                Some(Register::NIL)
            } else if old(self).position() == 1 {
                Some(Register::ACC)
            } else {
                None::<Register>
            }),
    {
        let result = match self.current {
            0 => Some(Register::NIL),
            1 => Some(Register::ACC),
            _ => None,
        };
        self.current = if self.current < u32::MAX {
            self.current + 1
        } else {
            self.current
        };
        result
    }
}

/// Iterator over `Destination`s.
pub struct DestinationIterator {
    current: i32,
    register_iterator: RegisterIterator,
}

impl DestinationIterator {
    /// How many times `next` has been called.
    pub closed spec fn position(&self) -> int {
        self.current as int
    }

    /// The position of the inner register iterator.
    pub closed spec fn register_position(&self) -> nat {
        self.register_iterator.position()
    }

    /// Create a `DestinationIterator`.
    pub fn new() -> (iterator: DestinationIterator)
        ensures
            iterator.position() == 0,
            iterator.register_position() == 0,
    {
        DestinationIterator { current: 0, register_iterator: RegisterIterator::new() }
    }

    /// The destinations, in order: the port first, then the registers in the
    /// order of `RegisterIterator`, then nothing.
    pub fn next(&mut self) -> (result: Option<Destination>)
        ensures
            final(self).position() == (if old(self).position() < i32::MAX {
                old(self).position() + 1
            } else {
                old(self).position()
            }),
            old(self).position() == 0 ==> result == Some(Destination::Port)
                && final(self).register_position() == old(self).register_position(),
            old(self).position() != 0 ==> {
                &&& final(self).register_position() == (if old(self).register_position() < u32::MAX {
                    old(self).register_position() + 1
                } else {
                    old(self).register_position()
                })
                &&& result == (if old(self).register_position() == 0 {
                    Some(Destination::Register(Register::NIL))
                } else if old(self).register_position() == 1 {
                    Some(Destination::Register(Register::ACC))
                } else {
                    None::<Destination>
                })
            },
    {
        let next_destination = if self.current == 0 {
            Some(Destination::Port)
        } else {
            match self.register_iterator.next() {
                Some(register) => Some(Destination::Register(register)),
                None => None,
            }
        };
        self.current = if self.current < i32::MAX {
            self.current + 1
        } else {
            self.current
        };
        next_destination
    }
}

/// The bounds that drive the search: the cycle budget handed to each
/// correctness check, and the instruction-count cutoff that ends the search.
pub struct Config {
    /// The cycle budget for each run of a candidate program.
    pub max_cycles: u32,
    /// The instruction-count cutoff: the search is abandoned at the first
    /// candidate longer than this.
    pub max_program_length: usize,
}

impl Config {
    /// Create a `Config` from the two bounds.
    pub fn new(max_cycles: u32, max_program_length: usize) -> (config: Config)
        ensures
            config.max_cycles == max_cycles,
            config.max_program_length == max_program_length,
    {
        Config { max_cycles, max_program_length }
    }
}

/// No counter value below `bound` decodes to a program that the oracle
/// accepts, and every one of them decodes to a program within the length
/// cutoff.
pub open spec fn no_hit_below(
    n: NodeView,
    expected: Seq<i32>,
    max_cycles: u32,
    max_program_length: nat,
    bound: nat,
) -> bool {
    forall|counter: nat|
        counter < bound ==> {
            &&& !spec_check(n, #[trigger] spec_decode(counter), expected, max_cycles)
            &&& spec_decode(counter).len() <= max_program_length
        }
}

/// Copies a vector of values.
fn clone_values(values: &Vec<i32>) -> (result: Vec<i32>)
    ensures
        result@ == values@,
{
    let mut result: Vec<i32> = Vec::new();
    let mut index: usize = 0;
    while index < values.len()
        invariant
            index <= values.len(),
            result@ == values@.subrange(0, index as int),
        decreases values.len() - index,
    {
        result.push(values[index]);
        index = index + 1;
        proof {
            assert(result@ =~= values@.subrange(0, index as int));
        }
    }
    proof {
        assert(result@ =~= values@);
    }
    result
}

/// Search the enumeration order for the first program that the oracle
/// accepts: the candidate at each counter value is checked against the
/// expected output, the first hit is returned at once, and the search is
/// abandoned with `None` at the first candidate whose instruction count
/// exceeds the length cutoff (that candidate itself having failed the check).
/// The cutoff may be at most 6: every program of at most 7 instructions is
/// enumerated below `33^7`, which the 32-bit counter cannot reach.
pub fn optimize(node: Node, expected_output: Vec<i32>, config: Config) -> (result: Option<Program>)
    requires
        config.max_program_length <= 6,
    ensures
        match result {
            Some(program) => exists|counter: nat|
                {
                    &&& #[trigger] spec_decode(counter) == program@
                    &&& spec_check(node@, program@, expected_output@, config.max_cycles)
                    &&& no_hit_below(
                        node@,
                        expected_output@,
                        config.max_cycles,
                        config.max_program_length as nat,
                        counter,
                    )
                },
            None => exists|counter: nat|
                {
                    &&& (#[trigger] spec_decode(counter)).len() > config.max_program_length
                    &&& !spec_check(node@, spec_decode(counter), expected_output@, config.max_cycles)
                    &&& no_hit_below(
                        node@,
                        expected_output@,
                        config.max_cycles,
                        config.max_program_length as nat,
                        counter,
                    )
                },
        },
{
    let mut counter: u32 = 0;
    loop
        invariant
            config.max_program_length <= 6,
            no_hit_below(
                node@,
                expected_output@,
                config.max_cycles,
                config.max_program_length as nat,
                counter as nat,
            ),
        decreases u32::MAX - counter,
    {
        let program = decode_program(counter);
        let candidate = program.clone();
        if check(node.clone(), candidate, clone_values(&expected_output), config.max_cycles) {
            return Some(program);
        }
        if program.0.len() > config.max_program_length {
            return None;
        }
        proof {
            assert(spec_decode(counter as nat).len() == spec_digits(counter as nat, 33).len());
            lemma_digits_len_bound(counter as nat, 6);
            assert(pow33(6) == 1291467969) by {
                reveal_with_fuel(pow33, 7);
            }
            assert forall|c: nat| c < counter as nat + 1 implies {
                &&& !spec_check(
                    node@,
                    #[trigger] spec_decode(c),
                    expected_output@,
                    config.max_cycles,
                )
                &&& spec_decode(c).len() <= config.max_program_length as nat
            } by {
                if c == counter as nat {
                    assert(spec_decode(c) == program@);
                }
            }
        }
        counter = counter + 1;
    }
}

} // verus!
