use tis_100_superoptimizer::check::check;
use tis_100_superoptimizer::TIS_100::Ports::Port;
use tis_100_superoptimizer::TIS_100::{
    Cycle, Destination, Instruction, Node, Program, Register, Source,
};

#[test]
fn should_correctly_check_program() {
    let program: Program = Program(vec![
        Instruction::MOV(Source::Port, Destination::Register(Register::ACC)),
        Instruction::ADD(Source::Port),
        Instruction::MOV(Source::Register(Register::ACC), Destination::Port),
    ]);
    let node: Node = Node::new().set_up(Port::new(vec![0, 1, 2, 3]));

    assert!(check(node, program, vec![1, 5], 10))
}

#[test]
fn constant_zero_program_writes_a_zero_for_each_input() {
    let program: Program = Program(vec![
        Instruction::MOV(Source::Literal(0), Destination::Port),
        Instruction::ADD(Source::Port),
    ]);
    let node: Node = Node::new().set_up(Port::new(vec![0, 1, 2, 3]));

    let run_node: Node = node.clone().load(program.clone());
    match run_node.run(Cycle::Maximum(10)) {
        Ok(result_node) => assert_eq!(Port::with(vec![], vec![0, 0, 0, 0]), result_node.down),
        Err(_) => panic!(),
    }

    assert!(check(node, program, vec![0, 0, 0, 0], 10));
}

#[test]
fn pairwise_sum_program_writes_the_sums() {
    let program: Program = Program(vec![
        Instruction::MOV(Source::Port, Destination::Register(Register::ACC)),
        Instruction::ADD(Source::Port),
        Instruction::MOV(Source::Register(Register::ACC), Destination::Port),
    ]);
    let node: Node = Node::new().set_up(Port::new(vec![0, 1, 2, 3]));

    let run_node: Node = node.load(program);
    match run_node.run(Cycle::Maximum(10)) {
        Ok(result_node) => assert_eq!(Port::with(vec![], vec![1, 5]), result_node.down),
        Err(_) => panic!(),
    }
}

#[test]
fn check_rejects_a_wrong_expectation() {
    let program: Program = Program(vec![
        Instruction::MOV(Source::Literal(0), Destination::Port),
        Instruction::ADD(Source::Port),
    ]);
    let node: Node = Node::new().set_up(Port::new(vec![0, 1, 2, 3]));

    assert!(!check(node, program, vec![0, 0, 0, 1], 10));
}

#[test]
fn check_rejects_a_timeout() {
    let program: Program = Program(vec![Instruction::NOP]);
    let node: Node = Node::new().set_up(Port::new(vec![1, 2]));

    assert!(!check(node, program, vec![], 100));
}

#[test]
fn check_rejects_a_deadlock() {
    let program: Program = Program(vec![Instruction::ADD(Source::Port)]);
    let node: Node = Node::new();

    assert!(!check(node, program, vec![], 10));
}

#[test]
fn check_is_deterministic() {
    let make_node = || Node::new().set_up(Port::new(vec![0, 1, 2, 3]));
    let make_program = || {
        Program(vec![
            Instruction::MOV(Source::Port, Destination::Register(Register::ACC)),
            Instruction::ADD(Source::Port),
            Instruction::MOV(Source::Register(Register::ACC), Destination::Port),
        ])
    };

    let first = check(make_node(), make_program(), vec![1, 5], 10);
    let second = check(make_node(), make_program(), vec![1, 5], 10);

    assert_eq!(first, second);
    assert!(first);
}
