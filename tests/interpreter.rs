use tape_interp::counter::Counter;
use tape_interp::machine::{run, run_with_budget, Instruction, Machine, RunError};
use tape_interp::tape::{Tape, TapeValue};

use Instruction::{
    Decrement, EndLoop, GetChar, Increment, MoveLeft, MoveRight, PutChar, StartLoop,
};

fn counters(values: &[u64]) -> Vec<Counter> {
    values.iter().map(|v| Counter::from_u64(*v)).collect()
}

fn numbers(cells: &[Counter]) -> Vec<u64> {
    cells.iter().map(|c| c.to_u64().unwrap()).collect()
}

fn run_numbers(program: &[Instruction], input: &[u64]) -> Result<Vec<u64>, RunError> {
    run(program.to_vec(), counters(input)).map(|out| numbers(&out))
}

#[test]
fn counter_decrement_of_zero_is_zero() {
    let z = Counter::zero();
    assert!(z.is_zero());
    assert_eq!(z.decrement().to_u64(), Some(0));
}

#[test]
fn counter_increment_then_decrement_is_identity() {
    for v in [0u64, 1, 2, 41, 1 << 40, u64::MAX - 1, u64::MAX] {
        let c = Counter::from_u64(v);
        assert_eq!(c.increment().decrement().to_u64(), Some(v));
    }
}

#[test]
fn counter_grows_past_one_limb() {
    let big = Counter::from_u64(u64::MAX).increment();
    assert_eq!(big.to_u64(), None);
    assert!(!big.is_zero());
    let bigger = big.increment();
    assert_eq!(bigger.to_u64(), None);
    assert_eq!(bigger.decrement().decrement().to_u64(), Some(u64::MAX));
    assert_eq!(big.duplicate().decrement().to_u64(), Some(u64::MAX));
}

#[test]
fn counter_increment_and_decrement_values() {
    assert_eq!(Counter::from_u64(6).increment().to_u64(), Some(7));
    assert_eq!(Counter::from_u64(6).decrement().to_u64(), Some(5));
    assert_eq!(Counter::from_u64(1).decrement().is_zero(), true);
}

#[test]
fn tape_move_round_trip_keeps_cells() {
    let t = Tape::from_cells(counters(&[4, 5, 6]), Counter::zero());
    let t = t.move_right();
    assert_eq!(t.read().to_u64(), Some(5));
    let t = t.move_right().move_left();
    assert_eq!(t.read().to_u64(), Some(5));
    let t = t.move_left();
    assert_eq!(t.read().to_u64(), Some(4));
    let t = t.move_left().move_right();
    assert_eq!(t.read().to_u64(), Some(4));
}

#[test]
fn tape_reads_filler_past_stored_cells() {
    let t = Tape::new(Counter::from_u64(9));
    assert_eq!(t.read().to_u64(), Some(9));
    let t = t.move_left().move_left();
    assert_eq!(t.read().to_u64(), Some(9));
    let t = t.write(Counter::from_u64(2)).move_right().move_right().move_right();
    assert_eq!(t.read().to_u64(), Some(9));
    let t = t.move_left().move_left().move_left();
    assert_eq!(t.read().to_u64(), Some(2));
}

#[test]
fn tape_write_leaves_left_cells() {
    let t = Tape::new(Counter::zero());
    let t = t.write(Counter::from_u64(1)).move_right().write(Counter::from_u64(2));
    assert_eq!(t.read().to_u64(), Some(2));
    let t = t.write(Counter::from_u64(3));
    assert_eq!(numbers(&t.move_right().into_left_cells()), vec![1, 3]);
}

#[test]
fn empty_program_outputs_nothing() {
    assert_eq!(run_numbers(&[], &[]), Ok(vec![]));
    assert_eq!(run_numbers(&[], &[1, 2, 3]), Ok(vec![]));
}

#[test]
fn increment_then_put() {
    assert_eq!(run_numbers(&[Increment, PutChar], &[]), Ok(vec![1]));
}

#[test]
fn get_then_put() {
    assert_eq!(run_numbers(&[GetChar, PutChar], &[5]), Ok(vec![5]));
}

#[test]
fn echo_until_zero() {
    let program = [GetChar, StartLoop, PutChar, GetChar, EndLoop];
    assert_eq!(run_numbers(&program, &[3, 7, 9]), Ok(vec![3, 7, 9]));
    assert_eq!(run_numbers(&program, &[3, 0, 9]), Ok(vec![3]));
}

#[test]
fn input_past_its_end_reads_zero() {
    assert_eq!(run_numbers(&[GetChar, GetChar, PutChar], &[4]), Ok(vec![0]));
}

#[test]
fn zero_guarded_loop_leaves_memory() {
    let m = Machine::new(vec![StartLoop, Increment, Decrement, EndLoop], vec![]).run_for(1000);
    assert!(m.is_halted());
    assert!(m.current_cell().is_zero());
    let m = m.into_output();
    assert!(m.is_empty());
}

#[test]
fn loop_body_runs_at_least_once() {
    let r = run_with_budget(vec![StartLoop, Increment, EndLoop], vec![], 10_000);
    assert_eq!(r.map(|out| numbers(&out)), Err(RunError::OutOfSteps));
}

#[test]
fn nested_loops_resolve_inner_end() {
    let program = vec![Increment, StartLoop, Increment, StartLoop, Decrement, EndLoop, Decrement, EndLoop];
    let m = Machine::new(program, vec![]).run_for(10_000);
    assert!(m.is_halted());
    assert!(m.current_cell().is_zero());
}

#[test]
fn nested_loops_count_iterations() {
    // Outer loop runs twice; each pass of it runs the inner loop down from 3.
    let program = vec![
        Increment, Increment, StartLoop, MoveRight, Increment, Increment, Increment, StartLoop,
        Decrement, PutChar, EndLoop, MoveLeft, Decrement, EndLoop,
    ];
    assert_eq!(run_numbers(&program, &[]), Ok(vec![2, 1, 0, 2, 1, 0]));
}

#[test]
fn moves_address_separate_cells() {
    let program = [Increment, MoveRight, Increment, Increment, PutChar, MoveLeft, PutChar];
    assert_eq!(run_numbers(&program, &[]), Ok(vec![2, 1]));
}

#[test]
fn decrement_saturates_in_programs() {
    assert_eq!(run_numbers(&[Decrement, PutChar], &[]), Ok(vec![0]));
}

#[test]
fn unmatched_end_loop_is_a_fault() {
    assert_eq!(run_numbers(&[Increment, EndLoop], &[]), Err(RunError::UnbalancedLoop));
    let m = Machine::new(vec![Increment, EndLoop], vec![]).run_for(100);
    assert!(m.is_faulted());
    assert!(!m.is_halted());
}

#[test]
fn unmatched_end_loop_on_zero_passes() {
    assert_eq!(run_numbers(&[EndLoop, Increment, PutChar], &[]), Ok(vec![1]));
}

#[test]
fn unmatched_start_loop_is_a_no_op() {
    assert_eq!(run_numbers(&[StartLoop, Increment, PutChar], &[]), Ok(vec![1]));
}

#[test]
fn budget_counts_transitions() {
    assert_eq!(run_with_budget(vec![], vec![], 0).map(|o| o.len()), Err(RunError::OutOfSteps));
    assert_eq!(run_with_budget(vec![], vec![], 1).map(|o| o.len()), Ok(0));
    // Fetch and execute for each of two instructions, then fetch the halt.
    let p = vec![Increment, PutChar];
    assert_eq!(run_with_budget(p.clone(), vec![], 4).map(|o| o.len()), Err(RunError::OutOfSteps));
    assert_eq!(run_with_budget(p, vec![], 5).map(|o| numbers(&o)), Ok(vec![1]));
}

#[test]
fn large_values_pass_through() {
    let out = run(vec![GetChar, Increment, PutChar], vec![Counter::from_u64(u64::MAX)]).unwrap();
    assert_eq!(out.len(), 1);
    assert_eq!(out[0].to_u64(), None);
    assert_eq!(out[0].decrement().to_u64(), Some(u64::MAX));
}

#[test]
fn step_by_step() {
    let m = Machine::new(vec![Increment], vec![]);
    assert!(!m.is_halted());
    let m = m.step().step();
    assert_eq!(m.current_cell().to_u64(), Some(1));
    let m = m.step();
    assert!(m.is_halted());
}
