use tis_100_superoptimizer::optimizer::{
    decode_program, optimize, Config, Content, DestinationIterator, ProgramIterator,
    RegisterIterator,
};
use tis_100_superoptimizer::TIS_100::Ports::Port;
use tis_100_superoptimizer::TIS_100::{Destination, Instruction, Node, Program, Register, Source};

#[test]
fn should_iterator_over_destinations() {
    let mut iterator = DestinationIterator::new();
    let mut destinations: Vec<Destination> = vec![];
    while let Some(destination) = iterator.next() {
        destinations.push(destination);
    }

    assert_eq!(Destination::Port, destinations[0]);
    assert_eq!(Destination::Register(Register::NIL), destinations[1]);
    assert_eq!(Destination::Register(Register::ACC), destinations[2]);
}

#[test]
fn should_iterator_over_registers() {
    let mut iterator = RegisterIterator::new();
    let mut registers: Vec<Register> = vec![];
    while let Some(register) = iterator.next() {
        registers.push(register);
    }

    assert_eq!(Register::NIL, registers[0]);
    assert_eq!(Register::ACC, registers[1]);
}

#[test]
fn should_iterate_over_programs() {
    let mut iterator = ProgramIterator::new();
    let mut programs: Vec<Program> = vec![];
    for _ in 0..34 {
        programs.push(iterator.next().unwrap());
    }

    assert_eq!(Program(vec![]), programs[0]);
    assert_eq!(Program(vec![Instruction::SWP]), programs[1]);
    assert_eq!(Program(vec![Instruction::SAV]), programs[2]);
    assert_eq!(
        Program(vec![Instruction::MOV(
            Source::Literal(-1),
            Destination::Register(Register::ACC)
        ),]),
        programs[32]
    );
    assert_eq!(Program(vec![Instruction::NOP, Instruction::SWP,]), programs[33])
}

#[test]
fn decoding_counter_zero_yields_the_empty_program() {
    assert_eq!(Program(vec![]), decode_program(0));
}

#[test]
fn decoding_is_total_over_scattered_counter_values() {
    for counter in [1u32, 33, 34, 1089, 35936, 35937, 123_456_789, u32::MAX] {
        let program = decode_program(counter);
        assert!(program.0.len() >= 1);
    }
}

#[test]
fn content_of_the_simple_instructions_is_one() {
    assert_eq!(1, Instruction::NOP.content());
    assert_eq!(1, Instruction::SWP.content());
    assert_eq!(1, Instruction::SAV.content());
}

#[test]
fn content_counts_sources_destinations_and_literal_magnitudes() {
    assert_eq!(2, Instruction::ADD(Source::Port).content());
    assert_eq!(2, Instruction::SUB(Source::Register(Register::ACC)).content());
    assert_eq!(5, Instruction::ADD(Source::Literal(-3)).content());
    assert_eq!(6, Instruction::MOV(Source::Literal(-3), Destination::Port).content());
    assert_eq!(
        3,
        Instruction::MOV(Source::Register(Register::NIL), Destination::Port).content()
    );
}

#[test]
fn content_of_the_largest_negative_literal_is_exact() {
    assert_eq!(2147483650, Instruction::ADD(Source::Literal(i32::MIN)).content());
}

#[test]
fn content_of_a_program_is_the_sum_over_its_instructions() {
    let program = Program(vec![
        Instruction::NOP,
        Instruction::ADD(Source::Literal(1)),
        Instruction::MOV(Source::Port, Destination::Register(Register::ACC)),
    ]);

    assert_eq!(1 + 3 + 3, program.content());
}

#[test]
fn optimize_finds_the_first_constant_zero_program() {
    let node: Node = Node::new().set_up(Port::new(vec![0, 1, 2, 3]));
    let expected_output: Vec<i32> = vec![0, 0, 0, 0];
    let config: Config = Config::new(10, 3);

    match optimize(node, expected_output, config) {
        Some(program) => {
            assert!(program.0.len() <= 2);
            assert_eq!(
                Program(vec![
                    Instruction::MOV(Source::Register(Register::NIL), Destination::Port),
                    Instruction::ADD(Source::Port),
                ]),
                program
            );
        }
        None => panic!(),
    }
}

#[test]
fn optimize_gives_up_at_the_length_cutoff() {
    let node: Node = Node::new();
    let expected_output: Vec<i32> = vec![42];
    let config: Config = Config::new(10, 1);

    assert_eq!(None, optimize(node, expected_output, config));
}
