//! The check module judges whether a certain `Program`, when run on a
//! specific `Node`, produces the expected result: it reads the input on
//! `Source::Port` and must write the expected sequence to `Destination::Port`.
//!
//! The oracle is a total, pure predicate: any `Deadlock` or `Timeout` outcome
//! is collapsed into `false`.

use vstd::prelude::*;

use crate::TIS_100::{
    lemma_run_loop_mono, spec_load, spec_outcome, spec_run_loop, Cycle, Instruction, Node,
    NodeView, Program, RunOutcome,
};

verus! {

/// True iff the run loop outcome is a `Success` whose down-port output equals
/// `expected`.
pub open spec fn outcome_matches(outcome: Option<RunOutcome>, expected: Seq<i32>) -> bool {
    outcome matches Some(RunOutcome::Success(m)) && m.down.output == expected
}

/// The oracle's statement: some pass bound makes the run of `program` on `n`
/// under the cycle budget end in `Success` with the down-port output equal to
/// `expected`. By `lemma_run_loop_mono` the terminal outcome is unique, so
/// this is a function of its arguments alone.
pub open spec fn spec_check(
    n: NodeView,
    program: Seq<Instruction>,
    expected: Seq<i32>,
    maximum_cycle: u32,
) -> bool {
    exists|passes: nat|
        outcome_matches(
            #[trigger] spec_run_loop(
                spec_load(n, program),
                Cycle::Maximum(maximum_cycle),
                0,
                passes,
            ),
            expected,
        )
}

/// The oracle is deterministic: its verdict is a function of the node, the
/// program, the expected output and the cycle budget alone, so identical
/// arguments always yield identical boolean results.
pub proof fn lemma_check_deterministic(
    first: bool,
    second: bool,
    n: NodeView,
    program: Seq<Instruction>,
    expected: Seq<i32>,
    maximum_cycle: u32,
)
    requires
        first == spec_check(n, program, expected, maximum_cycle),
        second == spec_check(n, program, expected, maximum_cycle),
    ensures
        first == second,
{
}

/// True iff the two vectors hold the same values in the same order.
fn same(left: Vec<i32>, right: Vec<i32>) -> (result: bool)
    ensures
        result == (left@ == right@),
{
    if left.len() == right.len() {
        let mut index: usize = 0;
        while index < left.len()
            invariant
                index <= left.len(),
                left.len() == right.len(),
                forall|j: int| 0 <= j < index ==> left@[j] == right@[j],
            decreases left.len() - index,
        {
            if left[index] != right[index] {
                return false;
            }
            index = index + 1;
        }
        proof {
            assert(left@ =~= right@);
        }
        true
    } else {
        false
    }
}

/// Checks whether `node`, loaded with `program` and run with a budget of
/// `maximum_cycle` cycles, writes `expected_result` to `Destination::Port`:
/// `true` exactly when the run succeeds with that down-port output, `false`
/// on a differing output and on any `Deadlock` or `Timeout`.
pub fn check(node: Node, program: Program, expected_result: Vec<i32>, maximum_cycle: u32) -> (result:
    bool)
    ensures
        result == spec_check(node@, program@, expected_result@, maximum_cycle),
{
    let ghost n0: NodeView = node@;
    let ghost prog: Seq<Instruction> = program@;
    let local_node: Node = node.load(program);
    let ghost loaded: NodeView = local_node@;
    let run_result = local_node.run(Cycle::Maximum(maximum_cycle));
    let ghost budget = Cycle::Maximum(maximum_cycle);
    let ghost witness: nat = choose|passes: nat|
        #[trigger] spec_run_loop(loaded, budget, 0, passes) == Some(spec_outcome(run_result));

    match run_result {
        Ok(result_node) => {
            let ghost terminal: NodeView = result_node@;
            let matches_expected = same(result_node.down.output, expected_result);
            proof {
                assert(loaded == spec_load(n0, prog));
                if matches_expected {
                    assert(outcome_matches(
                        spec_run_loop(loaded, budget, 0, witness),
                        expected_result@,
                    ));
                } else {
                    assert forall|passes: nat|
                        !outcome_matches(
                            #[trigger] spec_run_loop(loaded, budget, 0, passes),
                            expected_result@,
                        ) by {
                        if spec_run_loop(loaded, budget, 0, passes) is Some {
                            if passes <= witness {
                                lemma_run_loop_mono(loaded, budget, 0, passes, witness);
                            } else {
                                lemma_run_loop_mono(loaded, budget, 0, witness, passes);
                            }
                        }
                    }
                }
            }
            matches_expected
        },
        Err(_) => {
            proof {
                assert(loaded == spec_load(n0, prog));
                assert forall|passes: nat|
                    !outcome_matches(
                        #[trigger] spec_run_loop(loaded, budget, 0, passes),
                        expected_result@,
                    ) by {
                    if spec_run_loop(loaded, budget, 0, passes) is Some {
                        if passes <= witness {
                            lemma_run_loop_mono(loaded, budget, 0, passes, witness);
                        } else {
                            lemma_run_loop_mono(loaded, budget, 0, witness, passes);
                        }
                    }
                }
            }
            false
        },
    }
}

} // verus!
