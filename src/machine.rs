//! The interpreter: a state machine over a code tape, a memory tape, an input
//! tape and an output tape.
//!
//! Loops run their body at least once: `StartLoop` does nothing on the way
//! forward, and `EndLoop` sends control back to its matching `StartLoop`
//! while the current cell is nonzero. The match is found afresh each time by
//! scanning the code tape leftwards and counting the `EndLoop`s passed.
use vstd::prelude::*;

use crate::counter::{pred_saturating, succ, Counter};
use crate::tape::{views, Tape, TapeModel, TapeValue};

verus! {

/// One instruction of a program. `Halt` is what the code tape holds past the program.
#[derive(Clone, Copy, PartialEq, Eq, Debug, Structural)]
pub enum Instruction {
    /// Move the memory cursor one cell right.
    MoveRight,
    /// Move the memory cursor one cell left.
    MoveLeft,
    /// Add one to the current cell.
    Increment,
    /// Take one from the current cell; zero stays zero.
    Decrement,
    /// Mark the start of a loop; does nothing when reached going forward.
    StartLoop,
    /// Go back to just after the matching `StartLoop` unless the current cell is zero.
    EndLoop,
    /// Copy the next input value into the current cell; past the end of the
    /// input the value is zero.
    GetChar,
    /// Append the current cell's value to the output.
    PutChar,
    /// Stop.
    Halt,
}

impl View for Instruction {
    type V = Instruction;

    open spec fn view(&self) -> Instruction {
        *self
    }
}

impl TapeValue for Instruction {
    fn duplicate(&self) -> (r: Instruction) {
        *self
    }
}

/// How a run ended without a result.
#[derive(Clone, Copy, PartialEq, Eq, Debug, Structural)]
pub enum RunError {
    /// An `EndLoop` had no matching `StartLoop`: the backward scan reached the
    /// left end of the program.
    UnbalancedLoop,
    /// The step budget was spent before the program halted.
    OutOfSteps,
}

/// The control state, with counter values as natural numbers.
pub enum ControlModel {
    Fetch,
    Execute(Instruction),
    LoopCompare(nat),
    FetchGoingBack(nat),
    GoingBack(Instruction, nat),
}

/// A whole configuration of the machine.
pub struct MachineModel {
    pub code: TapeModel<Instruction>,
    pub memory: TapeModel<nat>,
    pub input: TapeModel<nat>,
    pub output: TapeModel<nat>,
    pub control: ControlModel,
}

/// The machine has run into the `Halt` past the program's end.
pub open spec fn is_halted(m: MachineModel) -> bool {
    m.control == ControlModel::Execute(Instruction::Halt)
}

/// A backward scan ran off the left end of the program.
pub open spec fn is_faulted(m: MachineModel) -> bool {
    m.control is GoingBack && m.control->GoingBack_0 == Instruction::Halt
}

/// No transition leaves this configuration.
pub open spec fn is_terminal(m: MachineModel) -> bool {
    is_halted(m) || is_faulted(m)
}

/// The configuration a run starts from.
pub open spec fn initial(program: Seq<Instruction>, input: Seq<nat>) -> MachineModel {
    MachineModel {
        code: TapeModel::from_cells(program, Instruction::Halt),
        memory: TapeModel::from_cells(Seq::empty(), 0),
        input: TapeModel::from_cells(input, 0),
        output: TapeModel::from_cells(Seq::empty(), 0),
        control: ControlModel::Fetch,
    }
}

/// `m` with a new code tape and control state.
pub open spec fn jump(m: MachineModel, code: TapeModel<Instruction>, control: ControlModel) -> MachineModel {
    MachineModel { code, memory: m.memory, input: m.input, output: m.output, control }
}

/// The effect of executing `i` forward (`Halt` changes nothing).
pub open spec fn execute(m: MachineModel, i: Instruction) -> MachineModel {
    let next = m.code.move_right();
    match i {
        Instruction::MoveRight => MachineModel {
            code: next,
            memory: m.memory.move_right(),
            input: m.input,
            output: m.output,
            control: ControlModel::Fetch,
        },
        Instruction::MoveLeft => MachineModel {
            code: next,
            memory: m.memory.move_left(),
            input: m.input,
            output: m.output,
            control: ControlModel::Fetch,
        },
        Instruction::Increment => MachineModel {
            code: next,
            memory: m.memory.write(succ(m.memory.read())),
            input: m.input,
            output: m.output,
            control: ControlModel::Fetch,
        },
        Instruction::Decrement => MachineModel {
            code: next,
            memory: m.memory.write(pred_saturating(m.memory.read())),
            input: m.input,
            output: m.output,
            control: ControlModel::Fetch,
        },
        Instruction::GetChar => MachineModel {
            code: next,
            memory: m.memory.write(m.input.read()),
            input: m.input.move_right(),
            output: m.output,
            control: ControlModel::Fetch,
        },
        Instruction::PutChar => MachineModel {
            code: next,
            memory: m.memory,
            input: m.input,
            output: m.output.write(m.memory.read()).move_right(),
            control: ControlModel::Fetch,
        },
        Instruction::StartLoop => jump(m, next, ControlModel::Fetch),
        Instruction::EndLoop => jump(m, m.code, ControlModel::LoopCompare(m.memory.read())),
        Instruction::Halt => m,
    }
}

/// The effect of meeting `i` during a backward scan at nesting depth `depth`
/// (`Halt` changes nothing).
pub open spec fn scan_back(m: MachineModel, i: Instruction, depth: nat) -> MachineModel {
    let prev = m.code.move_left();
    match i {
        Instruction::StartLoop => if depth == 0 {
            jump(m, m.code.move_right(), ControlModel::Fetch)
        } else {
            jump(m, prev, ControlModel::FetchGoingBack((depth - 1) as nat))
        },
        Instruction::EndLoop => jump(m, prev, ControlModel::FetchGoingBack(depth + 1)),
        Instruction::Halt => m,
        _ => jump(m, prev, ControlModel::FetchGoingBack(depth)),
    }
}

/// One transition of the machine; a terminal configuration stays as it is.
pub open spec fn next(m: MachineModel) -> MachineModel {
    match m.control {
        ControlModel::Fetch => jump(m, m.code, ControlModel::Execute(m.code.read())),
        ControlModel::Execute(i) => execute(m, i),
        ControlModel::LoopCompare(v) => if v == 0 {
            jump(m, m.code.move_right(), ControlModel::Fetch)
        } else {
            jump(m, m.code.move_left(), ControlModel::FetchGoingBack(0))
        },
        ControlModel::FetchGoingBack(d) => jump(m, m.code, ControlModel::GoingBack(m.code.read(), d)),
        ControlModel::GoingBack(i, d) => scan_back(m, i, d),
    }
}

/// The configuration after `n` transitions, or at the terminal one reached before.
pub open spec fn run_steps(m: MachineModel, n: nat) -> MachineModel
    decreases n,
{
    if n == 0 || is_terminal(m) {
        m
    } else {
        run_steps(next(m), (n - 1) as nat)
    }
}

/// What a configuration yields: the output written so far once halted, or why there is none.
pub open spec fn outcome(m: MachineModel) -> Result<Seq<nat>, RunError> {
    if is_halted(m) {
        Ok(m.output.left)
    } else if is_faulted(m) {
        Err(RunError::UnbalancedLoop)
    } else {
        Err(RunError::OutOfSteps)
    }
}

/// A terminal configuration stays as it is, however many steps are allowed.
proof fn lemma_terminal_stays(m: MachineModel, n: nat)
    requires
        is_terminal(m),
    ensures
        run_steps(m, n) == m,
{
}

/// The empty program halts at once, whatever the input, and writes nothing.
pub proof fn empty_program_writes_nothing(input: Seq<nat>, budget: nat)
    requires
        budget >= 1,
    ensures
        outcome(run_steps(initial(Seq::empty(), input), budget)) == Ok::<Seq<nat>, RunError>(Seq::empty()),
{
    let m0 = initial(Seq::empty(), input);
    assert(m0.code.right =~= Seq::<Instruction>::empty());
    let m1 = next(m0);
    assert(is_halted(m1));
    lemma_terminal_stays(m1, (budget - 1) as nat);
    assert(m1.output.left =~= Seq::<nat>::empty());
}

/// A loop whose body increments and then decrements a cell that starts at
/// zero leaves the memory tape, cell for cell, as a program without the loop
/// does: `[StartLoop, Increment, Decrement, EndLoop]` and `[]` end with the
/// same memory on every input.
pub proof fn balanced_loop_on_zero_leaves_memory(program: Seq<Instruction>, input: Seq<nat>, budget: nat)
    requires
        program == seq![Instruction::StartLoop, Instruction::Increment, Instruction::Decrement, Instruction::EndLoop],
        budget >= 10,
    ensures
        is_halted(run_steps(initial(program, input), budget)),
        is_halted(run_steps(initial(Seq::empty(), input), budget)),
        forall|i: int|
            #[trigger] run_steps(initial(program, input), budget).memory.cell(i)
                == run_steps(initial(Seq::empty(), input), budget).memory.cell(i),
{
    let m0 = initial(program, input);
    let code = program.reverse();
    assert(code =~= seq![Instruction::EndLoop, Instruction::Decrement, Instruction::Increment, Instruction::StartLoop]);
    let m1 = next(m0);
    assert(m1.control == ControlModel::Execute(Instruction::StartLoop));
    let m2 = next(m1);
    assert(m2.code.right.len() == 3);
    let m3 = next(m2);
    assert(m3.control == ControlModel::Execute(Instruction::Increment));
    let m4 = next(m3);
    assert(m4.memory.right =~= seq![1nat]);
    let m5 = next(m4);
    assert(m5.control == ControlModel::Execute(Instruction::Decrement));
    let m6 = next(m5);
    assert(m6.memory.right =~= seq![0nat]);
    let m7 = next(m6);
    assert(m7.control == ControlModel::Execute(Instruction::EndLoop));
    let m8 = next(m7);
    assert(m8.control == ControlModel::LoopCompare(0));
    let m9 = next(m8);
    assert(m9.code.right.len() == 0);
    let m10 = next(m9);
    assert(is_halted(m10));
    assert(run_steps(m0, budget) == run_steps(m10, (budget - 10) as nat)) by {
        reveal_with_fuel(run_steps, 11);
    }
    lemma_terminal_stays(m10, (budget - 10) as nat);
    empty_program_writes_nothing(input, budget);
    let e0 = initial(Seq::empty(), input);
    assert(e0.code.right =~= Seq::<Instruction>::empty());
    assert(e0.memory.right =~= Seq::<nat>::empty());
    lemma_terminal_stays(next(e0), (budget - 1) as nat);
    assert forall|i: int| #[trigger] m10.memory.cell(i) == 0 by {}
}

/// The control state of a running machine.
pub enum Control {
    /// Read the instruction under the code cursor.
    Fetch,
    /// Carry out an instruction.
    Execute(Instruction),
    /// An `EndLoop` is deciding, on the value of the current cell, whether to loop.
    LoopCompare(Counter),
    /// During a backward scan at the given depth, read the instruction under the code cursor.
    FetchGoingBack(Counter),
    /// During a backward scan at the given depth, act on the instruction just read.
    GoingBack(Instruction, Counter),
}

impl View for Control {
    type V = ControlModel;

    open spec fn view(&self) -> ControlModel {
        match self {
            Control::Fetch => ControlModel::Fetch,
            Control::Execute(i) => ControlModel::Execute(*i),
            Control::LoopCompare(v) => ControlModel::LoopCompare(v@),
            Control::FetchGoingBack(d) => ControlModel::FetchGoingBack(d@),
            Control::GoingBack(i, d) => ControlModel::GoingBack(*i, d@),
        }
    }
}

/// A configuration of the interpreter: the four tapes and the control state.
pub struct Machine {
    code: Tape<Instruction>,
    memory: Tape<Counter>,
    input: Tape<Counter>,
    output: Tape<Counter>,
    control: Control,
}

impl View for Machine {
    type V = MachineModel;

    closed spec fn view(&self) -> MachineModel {
        MachineModel {
            code: self.code@,
            memory: self.memory@,
            input: self.input@,
            output: self.output@,
            control: self.control@,
        }
    }
}

impl Machine {
    /// The machine about to run `program` on `input`: the code cursor on the
    /// first instruction, memory all zero, nothing read and nothing written.
    pub fn new(program: Vec<Instruction>, input: Vec<Counter>) -> (r: Machine)
        ensures
            r@ == initial(program@, views(input@)),
    {
        proof {
            assert(views(program@) =~= program@);
        }
        let r = Machine {
            code: Tape::from_cells(program, Instruction::Halt),
            memory: Tape::from_cells(Vec::new(), Counter::zero()),
            input: Tape::from_cells(input, Counter::zero()),
            output: Tape::from_cells(Vec::new(), Counter::zero()),
            control: Control::Fetch,
        };
        proof {
            assert(views(Seq::<Counter>::empty()) =~= Seq::<nat>::empty());
        }
        r
    }

    /// Whether the machine has halted normally.
    pub fn is_halted(&self) -> (r: bool)
        ensures
            r == is_halted(self@),
    {
        match &self.control {
            Control::Execute(Instruction::Halt) => true,
            _ => false,
        }
    }

    /// Whether the machine stopped on an `EndLoop` without a matching `StartLoop`.
    pub fn is_faulted(&self) -> (r: bool)
        ensures
            r == is_faulted(self@),
    {
        match &self.control {
            Control::GoingBack(Instruction::Halt, _) => true,
            _ => false,
        }
    }

    /// The value of the memory cell under the cursor.
    pub fn current_cell(&self) -> (r: &Counter)
        ensures
            r@ == self@.memory.read(),
    {
        self.memory.read()
    }

    /// The machine after one transition.
    pub fn step(self) -> (r: Machine)
        requires
            !is_terminal(self@),
        ensures
            r@ == next(self@),
    {
        let Machine { code, memory, input, output, control } = self;
        match control {
            Control::Fetch => {
                let i = *code.read();
                Machine { code, memory, input, output, control: Control::Execute(i) }
            },
            Control::Execute(i) => match i {
                Instruction::MoveRight => Machine {
                    code: code.move_right(),
                    memory: memory.move_right(),
                    input,
                    output,
                    control: Control::Fetch,
                },
                Instruction::MoveLeft => Machine {
                    code: code.move_right(),
                    memory: memory.move_left(),
                    input,
                    output,
                    control: Control::Fetch,
                },
                Instruction::Increment => {
                    let v = memory.read().increment();
                    Machine {
                        code: code.move_right(),
                        memory: memory.write(v),
                        input,
                        output,
                        control: Control::Fetch,
                    }
                },
                Instruction::Decrement => {
                    let v = memory.read().decrement();
                    Machine {
                        code: code.move_right(),
                        memory: memory.write(v),
                        input,
                        output,
                        control: Control::Fetch,
                    }
                },
                Instruction::GetChar => {
                    let v = input.read().duplicate();
                    Machine {
                        code: code.move_right(),
                        memory: memory.write(v),
                        input: input.move_right(),
                        output,
                        control: Control::Fetch,
                    }
                },
                Instruction::PutChar => {
                    let v = memory.read().duplicate();
                    Machine {
                        code: code.move_right(),
                        memory,
                        input,
                        output: output.write(v).move_right(),
                        control: Control::Fetch,
                    }
                },
                Instruction::StartLoop => Machine {
                    code: code.move_right(),
                    memory,
                    input,
                    output,
                    control: Control::Fetch,
                },
                Instruction::EndLoop => {
                    let v = memory.read().duplicate();
                    Machine { code, memory, input, output, control: Control::LoopCompare(v) }
                },
                Instruction::Halt => Machine { code, memory, input, output, control: Control::Execute(i) },
            },
            Control::LoopCompare(v) => {
                if v.is_zero() {
                    Machine { code: code.move_right(), memory, input, output, control: Control::Fetch }
                } else {
                    Machine {
                        code: code.move_left(),
                        memory,
                        input,
                        output,
                        control: Control::FetchGoingBack(Counter::zero()),
                    }
                }
            },
            Control::FetchGoingBack(d) => {
                let i = *code.read();
                Machine { code, memory, input, output, control: Control::GoingBack(i, d) }
            },
            Control::GoingBack(i, d) => match i {
                Instruction::StartLoop => {
                    if d.is_zero() {
                        Machine { code: code.move_right(), memory, input, output, control: Control::Fetch }
                    } else {
                        Machine {
                            code: code.move_left(),
                            memory,
                            input,
                            output,
                            control: Control::FetchGoingBack(d.decrement()),
                        }
                    }
                },
                Instruction::EndLoop => Machine {
                    code: code.move_left(),
                    memory,
                    input,
                    output,
                    control: Control::FetchGoingBack(d.increment()),
                },
                Instruction::Halt => Machine { code, memory, input, output, control: Control::GoingBack(i, d) },
                _ => Machine {
                    code: code.move_left(),
                    memory,
                    input,
                    output,
                    control: Control::FetchGoingBack(d),
                },
            },
        }
    }

    /// The machine after at most `budget` transitions, stopping early at a
    /// terminal configuration.
    pub fn run_for(self, budget: u64) -> (r: Machine)
        ensures
            r@ == run_steps(self@, budget as nat),
    {
        let mut m = self;
        let mut left: u64 = budget;
        while left > 0 && !(m.is_halted() || m.is_faulted())
            invariant
                run_steps(m@, left as nat) == run_steps(self@, budget as nat),
            decreases left,
        {
            m = m.step();
            left = left - 1;
        }
        m
    }

    /// The values written so far, in the order they were written.
    pub fn into_output(self) -> (r: Vec<Counter>)
        ensures
            views(r@) == self@.output.left,
    {
        self.output.into_left_cells()
    }
}

/// Runs `program` on `input` for at most `budget` transitions and returns the
/// values it wrote, or why it gave none.
pub fn run_with_budget(program: Vec<Instruction>, input: Vec<Counter>, budget: u64) -> (r: Result<Vec<Counter>, RunError>)
    ensures
        match r {
            Ok(out) => outcome(run_steps(initial(program@, views(input@)), budget as nat)) == Ok::<Seq<nat>, RunError>(views(out@)),
            Err(e) => outcome(run_steps(initial(program@, views(input@)), budget as nat)) == Err::<Seq<nat>, RunError>(e),
        },
{
    let m = Machine::new(program, input).run_for(budget);
    if m.is_halted() {
        Ok(m.into_output())
    } else if m.is_faulted() {
        Err(RunError::UnbalancedLoop)
    } else {
        Err(RunError::OutOfSteps)
    }
}

/// Runs `program` on `input` until it halts and returns the values it wrote.
///
/// The run is cut off after `u64::MAX` transitions, a bound that no real run
/// comes near; a program that never halts ends in `OutOfSteps` only there.
pub fn run(program: Vec<Instruction>, input: Vec<Counter>) -> (r: Result<Vec<Counter>, RunError>)
    ensures
        match r {
            Ok(out) => outcome(run_steps(initial(program@, views(input@)), u64::MAX as nat)) == Ok::<Seq<nat>, RunError>(views(out@)),
            Err(e) => outcome(run_steps(initial(program@, views(input@)), u64::MAX as nat)) == Err::<Seq<nat>, RunError>(e),
        },
{
    run_with_budget(program, input, u64::MAX)
}

/// Refuses whatever it is given and hands it back inside the error, so that
/// the caller reports it: a result is shown by being rejected.
pub fn cause_type_error<A>(value: A) -> (r: Result<(), A>)
    ensures
        r == Err::<(), A>(value),
{
    Err(value)
}

} // verus!
