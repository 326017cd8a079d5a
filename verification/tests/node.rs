#![allow(non_snake_case)]

use tis_100_superoptimizer::TIS_100::Ports::Port;
use tis_100_superoptimizer::TIS_100::{
    Cycle, Destination, ErrorStatus, Instruction, Node, Program, Register, Source,
};

fn node_with(acc: i32, bac: i32, pc: usize, up: Vec<i32>, down: Vec<i32>) -> Node {
    Node::new()
        .set_acc(acc)
        .set_bac(bac)
        .set_pc(pc)
        .set_up(Port::with(up, vec![]))
        .set_down(Port::with(vec![], down))
}

#[test]
fn node_should_start_with_accumulator_zero() {
    let node: Node = Node::new();

    assert_eq!(0, node.acc);
}

#[test]
fn node_should_start_with_backup_zero() {
    let node: Node = Node::new();
    let instruction: Instruction = Instruction::SWP;

    let next: Node = node.execute(instruction).unwrap();

    assert_eq!(0, next.acc);
}

#[test]
fn node_should_execute_NOP_correctly() {
    let node: Node = Node::new().set_acc(1);
    let instruction: Instruction = Instruction::NOP;

    let next: Node = node.execute(instruction).unwrap();

    assert_eq!(node_with(1, 0, 1, vec![], vec![]), next);
}

#[test]
fn node_should_execute_MOV_from_NIL_to_NIL_correctly() {
    let node: Node = Node::new().set_acc(1);
    let instruction: Instruction = Instruction::MOV(
        Source::Register(Register::NIL),
        Destination::Register(Register::NIL),
    );

    let next: Node = node.execute(instruction).unwrap();

    assert_eq!(node_with(1, 0, 1, vec![], vec![]), next);
}

#[test]
fn node_should_execute_MOV_from_ACC_to_ACC_correctly() {
    let node: Node = Node::new().set_acc(2).set_bac(1);
    let instruction: Instruction = Instruction::MOV(
        Source::Register(Register::ACC),
        Destination::Register(Register::ACC),
    );

    let next: Node = node.execute(instruction).unwrap();

    assert_eq!(node_with(2, 1, 1, vec![], vec![]), next);
}

#[test]
fn node_should_execute_MOV_from_Literal_to_ACC_correctly() {
    let node: Node = Node::new();
    let instruction: Instruction = Instruction::MOV(
        Source::Literal(1),
        Destination::Register(Register::ACC),
    );

    let next: Node = node.execute(instruction).unwrap();

    assert_eq!(node_with(1, 0, 1, vec![], vec![]), next);
}

#[test]
fn node_should_execute_MOV_from_Literal_to_Port_correctly() {
    let node: Node = Node::new();
    let instruction: Instruction = Instruction::MOV(Source::Literal(1), Destination::Port);

    let next: Node = node.execute(instruction).unwrap();

    assert_eq!(node_with(0, 0, 1, vec![], vec![1]), next);
}

#[test]
fn node_should_execute_MOV_from_Port_to_ACC_correctly() {
    let node: Node = Node::new().set_up(Port::new(vec![1]));
    let instruction: Instruction = Instruction::MOV(
        Source::Port,
        Destination::Register(Register::ACC),
    );

    let next: Node = node.execute(instruction).unwrap();

    assert_eq!(node_with(1, 0, 1, vec![], vec![]), next);
}

#[test]
fn node_should_execute_SWP_correctly() {
    let node: Node = Node::new().set_acc(1);
    let instruction: Instruction = Instruction::SWP;

    let next: Node = node.execute(instruction).unwrap();

    assert_eq!(node_with(0, 1, 1, vec![], vec![]), next);
}

#[test]
fn node_should_execute_SAV_correctly() {
    let node: Node = Node::new().set_acc(1);
    let instruction: Instruction = Instruction::SAV;

    let next: Node = node.execute(instruction).unwrap();

    assert_eq!(node_with(1, 1, 1, vec![], vec![]), next);
}

#[test]
fn node_should_execute_ADD_from_Literal_correctly() {
    let node: Node = Node::new().set_acc(1);
    let instruction: Instruction = Instruction::ADD(Source::Literal(1));

    let next: Node = node.execute(instruction).unwrap();

    assert_eq!(node_with(2, 0, 1, vec![], vec![]), next);
}

#[test]
fn node_should_execute_SUB_from_Literal_correctly() {
    let node: Node = Node::new().set_acc(2);
    let instruction: Instruction = Instruction::SUB(Source::Literal(1));

    let next: Node = node.execute(instruction).unwrap();

    assert_eq!(node_with(1, 0, 1, vec![], vec![]), next);
}

#[test]
fn programs_should_differ_when_different_size() {
    assert_eq!(false, Program(vec![]) == Program(vec![Instruction::SAV]));
}

#[test]
fn programs_should_differ_when_different_instructions() {
    assert_eq!(false, Program(vec![Instruction::SWP]) == Program(vec![Instruction::SAV]));
}

#[test]
fn programs_should_equal_with_same_instructions() {
    assert_eq!(Program(vec![Instruction::SAV]), Program(vec![Instruction::SAV]));
}

#[test]
fn node_should_execute_program_correctly() {
    let program: Program = Program(vec![
        // calculate 4 * source - 1
        Instruction::MOV(Source::Literal(1), Destination::Register(Register::ACC)),
        Instruction::ADD(Source::Register(Register::ACC)),
        Instruction::ADD(Source::Register(Register::ACC)),
        Instruction::SUB(Source::Literal(1)),
    ]);
    let node: Node = Node::new().load(program);

    match node.run(Cycle::Indefinetly) {
        Ok(_) => assert!(true),
        Err(_) => assert!(false),
    }
}

#[test]
fn node_should_execute_program_so_long_as_there_is_input() {
    let program: Program = Program(vec![
        // calculate 4 * source - 1
        Instruction::MOV(Source::Port, Destination::Register(Register::ACC)),
        Instruction::ADD(Source::Register(Register::ACC)),
        Instruction::ADD(Source::Register(Register::ACC)),
        Instruction::SUB(Source::Literal(1)),
        Instruction::MOV(Source::Register(Register::ACC), Destination::Port),
    ]);
    let node: Node = Node::new().set_up(Port::new(vec![1, 2])).load(program);

    match node.run(Cycle::Indefinetly) {
        Ok(result_node) => assert_eq!(Port::with(vec![], vec![3, 7]), result_node.down),
        Err(_) => assert!(false),
    }
}

#[test]
fn node_should_timeout_execution_program_when_cycles_are_restricted() {
    let program: Program = Program(vec![Instruction::NOP]);
    let node: Node = Node::new().set_up(Port::new(vec![1, 2])).load(program);

    match node.run(Cycle::Maximum(100)) {
        Ok(_) => assert!(false),
        Err(_) => assert!(true),
    }
}

#[test]
fn node_should_deadlock_when_reading_an_empty_port() {
    let program: Program = Program(vec![Instruction::ADD(Source::Port)]);
    let node: Node = Node::new().load(program);

    match node.run(Cycle::Maximum(10)) {
        Err(ErrorStatus::Deadlock(stalled)) => assert_eq!(0, stalled.acc),
        _ => panic!(),
    }
}

#[test]
fn timeout_is_reported_as_timeout_not_deadlock() {
    let program: Program = Program(vec![Instruction::NOP]);
    let node: Node = Node::new().set_up(Port::new(vec![1, 2])).load(program);

    match node.run(Cycle::Maximum(100)) {
        Err(ErrorStatus::Timeout(_)) => {}
        _ => panic!(),
    }
}

#[test]
fn empty_program_with_empty_input_succeeds_at_once() {
    let node: Node = Node::new();

    match node.run(Cycle::Maximum(10)) {
        Ok(result_node) => assert_eq!(Port::new(vec![]), result_node.down),
        Err(_) => panic!(),
    }
}

#[test]
fn empty_program_with_input_left_times_out() {
    let node: Node = Node::new().set_up(Port::new(vec![1]));

    match node.run(Cycle::Maximum(10)) {
        Err(ErrorStatus::Timeout(_)) => {}
        _ => panic!(),
    }
}

#[test]
fn swapping_twice_restores_both_registers() {
    let node: Node = Node::new().set_acc(3).set_bac(7);

    let next: Node = node
        .execute(Instruction::SWP)
        .unwrap()
        .execute(Instruction::SWP)
        .unwrap();

    assert_eq!(node_with(3, 7, 2, vec![], vec![]), next);
}

#[test]
fn saving_then_moving_acc_onto_itself_keeps_acc_and_backs_it_up() {
    let node: Node = Node::new().set_acc(5).set_bac(9);

    let next: Node = node
        .execute(Instruction::SAV)
        .unwrap()
        .execute(Instruction::MOV(
            Source::Register(Register::ACC),
            Destination::Register(Register::ACC),
        ))
        .unwrap();

    assert_eq!(5, next.acc);
    assert_eq!(node_with(5, 5, 2, vec![], vec![]), next);
}

#[test]
fn addition_wraps_around_at_the_i32_boundary() {
    let node: Node = Node::new().set_acc(i32::MAX);

    let next: Node = node.execute(Instruction::ADD(Source::Literal(1))).unwrap();

    assert_eq!(i32::MIN, next.acc);
}

#[test]
fn subtraction_wraps_around_at_the_i32_boundary() {
    let node: Node = Node::new().set_acc(i32::MIN);

    let next: Node = node.execute(Instruction::SUB(Source::Literal(1))).unwrap();

    assert_eq!(i32::MAX, next.acc);
}

#[test]
fn executing_any_non_port_instruction_advances_pc_by_one() {
    let node: Node = Node::new().set_acc(4);

    for instruction in [
        Instruction::NOP,
        Instruction::SWP,
        Instruction::SAV,
        Instruction::ADD(Source::Literal(2)),
        Instruction::SUB(Source::Register(Register::NIL)),
        Instruction::MOV(Source::Literal(0), Destination::Port),
    ] {
        let next: Node = node.execute(instruction).unwrap();
        assert_eq!(1, next.pc);
    }
}
