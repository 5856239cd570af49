//! The machine's instructions, and how it runs them.

use vstd::prelude::*;
use vstd::string::StringExecFns;

use crate::text;
use crate::two::memory::{RegisterErr, Registers};

verus! {

/// An instruction. The fields of `Add` and `Mul` are addresses: of the two
/// operands, then of the result. `Add` and `Mul` take four cells of memory,
/// `Stop` takes one.
#[derive(Debug, Clone, Copy, PartialEq, Eq, Structural)]
pub enum OpCode {
    /// Ends the run.
    Stop,
    /// Writes the sum of two cells to a third.
    Add(usize, usize, usize),
    /// Writes the product of two cells to a third.
    Mul(usize, usize, usize),
}

/// Why no instruction could be read.
#[derive(Debug, Clone, Copy, PartialEq, Eq, Structural)]
pub enum OpCodeParseError {
    /// The instruction, or a part of it, lies outside of memory.
    Register(RegisterErr),
    /// The cell at `position` holds `value`, which names no operation.
    UnknownOpcode { value: usize, position: usize },
}

/// Why an instruction could not be carried out.
#[derive(Debug, Clone, Copy, PartialEq, Eq, Structural)]
pub enum OpApplicationError {
    /// The instruction is `Stop`, which does nothing to memory.
    Stop,
    /// An operand or the result lies outside of memory.
    Register(RegisterErr),
    /// The sum or product of these two operands does not fit a cell.
    ArithmeticOverflow(usize, usize),
}

/// A failure to read the instruction under the pointer.
#[derive(Debug, Clone, Copy, PartialEq, Eq, Structural)]
pub struct EvalError(pub OpCodeParseError);

/// The fault that ended a run.
#[derive(Debug, Clone, Copy, PartialEq, Eq, Structural)]
pub enum RunError {
    /// The instruction under the pointer could not be read.
    Eval(EvalError),
    /// The instruction under the pointer could not be carried out.
    Apply(OpApplicationError),
}

/// The machine between two instructions: `position` is the address of the
/// instruction that comes next.
#[derive(Debug, Clone, Copy, PartialEq, Eq, Structural)]
pub struct EvalStep {
    pub position: usize,
}

/// What a step of the machine leads to: the run has halted, it goes on from
/// the given state, or it has ended with a fault.
#[derive(Debug, Clone, Copy, PartialEq, Eq, Structural)]
pub enum Run {
    /// The machine met a stop instruction.
    Finished,
    /// The machine carried an instruction out; this state comes next.
    Continue(EvalStep),
    /// The machine met an instruction that it could not read or carry out.
    Error(RunError),
}

/// The number of cells that `op` takes.
pub open spec fn width(op: OpCode) -> int {
    match op {
        OpCode::Stop => 1,
        OpCode::Add(_, _, _) => 4,
        OpCode::Mul(_, _, _) => 4,
    }
}

/// The address of the last of the three cells after `position`, or the
/// largest address there is where that one does not exist.
pub open spec fn operands_end(position: usize) -> usize {
    if position + 3 <= usize::MAX {
        (position + 3) as usize
    } else {
        usize::MAX
    }
}

/// The instruction that stands at `position` in `mem`. The cell there names
/// the operation: 1 adds, 2 multiplies, 99 stops. The three cells after a 1
/// or a 2 are read at once, so a missing one is reported as a missing
/// range.
pub open spec fn decode(mem: Seq<usize>, position: usize) -> Result<OpCode, OpCodeParseError> {
    if position >= mem.len() {
        Err(OpCodeParseError::Register(RegisterErr::Missing(position)))
    } else if mem[position as int] == 1 || mem[position as int] == 2 {
        if position + 3 < mem.len() {
            let (x, y, to) = (mem[position + 1], mem[position + 2], mem[position + 3]);
            if mem[position as int] == 1 {
                Ok(OpCode::Add(x, y, to))
            } else {
                Ok(OpCode::Mul(x, y, to))
            }
        } else {
            Err(
                OpCodeParseError::Register(
                    RegisterErr::MissingRange((position + 1) as usize, operands_end(position)),
                ),
            )
        }
    } else if mem[position as int] == 99 {
        Ok(OpCode::Stop)
    } else {
        Err(OpCodeParseError::UnknownOpcode { value: mem[position as int], position })
    }
}

/// Memory after the cells at `x` and `y` were added (`sum`) or multiplied,
/// and the result written to the cell at `to`. The operands are read
/// first, `x` before `y`; then the result is computed; then it is written.
/// The first of these that fails is the error.
pub open spec fn combine(mem: Seq<usize>, sum: bool, x: usize, y: usize, to: usize) -> Result<
    Seq<usize>,
    OpApplicationError,
> {
    let value = if sum {
        mem[x as int] + mem[y as int]
    } else {
        mem[x as int] * mem[y as int]
    };
    if x >= mem.len() {
        Err(OpApplicationError::Register(RegisterErr::Missing(x)))
    } else if y >= mem.len() {
        Err(OpApplicationError::Register(RegisterErr::Missing(y)))
    } else if value > usize::MAX {
        Err(OpApplicationError::ArithmeticOverflow(mem[x as int], mem[y as int]))
    } else if to >= mem.len() {
        Err(OpApplicationError::Register(RegisterErr::Insert(to)))
    } else {
        Ok(mem.update(to as int, value as usize))
    }
}

/// Memory after `op` was carried out on `mem`.
pub open spec fn apply_to(op: OpCode, mem: Seq<usize>) -> Result<Seq<usize>, OpApplicationError> {
    match op {
        OpCode::Stop => Err(OpApplicationError::Stop),
        OpCode::Add(x, y, to) => combine(mem, true, x, y, to),
        OpCode::Mul(x, y, to) => combine(mem, false, x, y, to),
    }
}

/// The instruction at `position` together with the state that follows it:
/// the pointer moves on by the instruction's width.
pub open spec fn eval_at(mem: Seq<usize>, position: usize) -> Result<(EvalStep, OpCode), EvalError> {
    match decode(mem, position) {
        Ok(op) => Ok((EvalStep { position: (position + width(op)) as usize }, op)),
        Err(e) => Err(EvalError(e)),
    }
}

/// One step of the machine from `position` on `mem`: what it leads to, and
/// memory after it. A step that halts or faults leaves memory as it was.
pub open spec fn step(mem: Seq<usize>, position: usize) -> (Run, Seq<usize>) {
    match eval_at(mem, position) {
        Err(e) => (Run::Error(RunError::Eval(e)), mem),
        Ok((_, OpCode::Stop)) => (Run::Finished, mem),
        Ok((next, op)) => match apply_to(op, mem) {
            Err(e) => (Run::Error(RunError::Apply(e)), mem),
            Ok(after) => (Run::Continue(next), after),
        },
    }
}

/// A step keeps the length of memory; one that does not end the run has
/// read a whole instruction of four cells, and leaves the pointer just
/// behind it.
pub proof fn step_moves_on(mem: Seq<usize>, position: usize)
    requires
        mem.len() <= usize::MAX,
    ensures
        step(mem, position).1.len() == mem.len(),
        step(mem, position).0 matches Run::Continue(next) ==> next.position == position + 4
            && position + 4 <= mem.len(),
{
}

/// The run of the machine from `position` on `mem`: how it ends, and memory
/// at that point. Every step that does not end the run moves the pointer
/// four cells on, so every run ends. (Memory has no more cells than there
/// are addresses.)
pub open spec fn run(mem: Seq<usize>, position: usize) -> (Run, Seq<usize>)
    decreases mem.len() - position,
    when mem.len() <= usize::MAX
{
    let (outcome, after) = step(mem, position);
    match outcome {
        Run::Continue(next) => {
            proof {
                step_moves_on(mem, position);
            }
            run(after, next.position)
        },
        _ => (outcome, after),
    }
}

impl OpCode {
    /// Reads the instruction at `position`.
    pub fn parse(position: usize, registers: &Registers) -> (r: Result<Self, OpCodeParseError>)
        ensures
            r == decode(registers@, position),
    {
        let code = match registers.at(position) {
            Ok(code) => *code,
            Err(e) => {
                return Err(OpCodeParseError::Register(e));
            },
        };
        assert(position < registers.0.len());
        if code == 1 || code == 2 {
            match registers.range(position + 1, position.saturating_add(3)) {
                Ok(nums) => {
                    if code == 1 {
                        Ok(OpCode::Add(nums[0], nums[1], nums[2]))
                    } else {
                        Ok(OpCode::Mul(nums[0], nums[1], nums[2]))
                    }
                },
                Err(e) => Err(OpCodeParseError::Register(e)),
            }
        } else if code == 99 {
            Ok(OpCode::Stop)
        } else {
            Err(OpCodeParseError::UnknownOpcode { value: code, position })
        }
    }

    /// Carries the instruction out on `registers`. On an error memory is
    /// left as it was.
    pub fn apply(&self, registers: &mut Registers) -> (r: Result<(), OpApplicationError>)
        ensures
            match r {
                Ok(_) => apply_to(*self, old(registers)@) == Ok::<
                    Seq<usize>,
                    OpApplicationError,
                >(final(registers)@),
                Err(e) => apply_to(*self, old(registers)@) == Err::<
                    Seq<usize>,
                    OpApplicationError,
                >(e) && final(registers)@ == old(registers)@,
            },
    {
        let (sum, xloc, yloc, resloc) = match *self {
            OpCode::Stop => {
                return Err(OpApplicationError::Stop);
            },
            OpCode::Add(x, y, to) => (true, x, y, to),
            OpCode::Mul(x, y, to) => (false, x, y, to),
        };
        let x = match registers.at(xloc) {
            Ok(x) => *x,
            Err(e) => {
                return Err(OpApplicationError::Register(e));
            },
        };
        let y = match registers.at(yloc) {
            Ok(y) => *y,
            Err(e) => {
                return Err(OpApplicationError::Register(e));
            },
        };
        let value = if sum {
            x.checked_add(y)
        } else {
            x.checked_mul(y)
        };
        match value {
            None => Err(OpApplicationError::ArithmeticOverflow(x, y)),
            Some(value) => match registers.set(resloc, value) {
                Ok(_) => Ok(()),
                Err(e) => Err(OpApplicationError::Register(e)),
            },
        }
    }
}

impl EvalStep {
    /// The state in which the instruction at `position` comes next.
    pub fn new(position: usize) -> (state: Self)
        ensures
            state.position == position,
    {
        Self { position }
    }

    /// Reads the instruction that comes next, and gives with it the state
    /// after that instruction.
    pub fn eval(&self, registers: &Registers) -> (r: Result<(EvalStep, OpCode), EvalError>)
        ensures
            r == eval_at(registers@, self.position),
    {
        match OpCode::parse(self.position, registers) {
            Ok(op) => {
                assert(self.position + width(op) <= registers.0.len());
                let next = match op {
                    OpCode::Stop => self.position + 1,
                    _ => self.position + 4,
                };
                Ok((Self::new(next), op))
            },
            Err(e) => Err(EvalError(e)),
        }
    }
}

/// Takes one step of the machine from `state`.
pub fn run_step(state: &EvalStep, registers: &mut Registers) -> (r: Run)
    ensures
        (r, final(registers)@) == step(old(registers)@, state.position),
{
    match state.eval(registers) {
        Err(e) => Run::Error(RunError::Eval(e)),
        Ok((_, OpCode::Stop)) => Run::Finished,
        Ok((next, op)) => match op.apply(registers) {
            Err(e) => Run::Error(RunError::Apply(e)),
            Ok(_) => Run::Continue(next),
        },
    }
}

/// Runs the machine from address 0 until it halts or faults.
pub fn run_script(registers: &mut Registers) -> (r: Run)
    ensures
        (r, final(registers)@) == run(old(registers)@, 0),
        r !is Continue,
        final(registers)@.len() == old(registers)@.len(),
{
    let mut state = EvalStep::new(0);
    assert(registers@.len() == registers.0.len());
    loop
        invariant
            registers@.len() <= usize::MAX,
            registers@.len() == old(registers)@.len(),
            run(registers@, state.position) == run(old(registers)@, 0),
        decreases registers@.len() - state.position,
    {
        proof {
            step_moves_on(registers@, state.position);
        }
        match run_step(&state, registers) {
            Run::Continue(next) => {
                state = next;
            },
            res => {
                return res;
            },
        }
    }
}

/// Whether the run from `position` on `mem` meets nothing but instructions
/// that can be carried out, and at last a stop: under the pointer stands a
/// 99, or a 1 or a 2 with its three addresses, each of them inside memory,
/// with a result that fits a cell, and the same holds of the run that
/// follows it.
pub open spec fn well_formed(mem: Seq<usize>, position: usize) -> bool
    decreases mem.len() - position,
    when mem.len() <= usize::MAX
{
    let code = mem[position as int];
    let (x, y, to) = (mem[position + 1], mem[position + 2], mem[position + 3]);
    let value = if code == 1 {
        mem[x as int] + mem[y as int]
    } else {
        mem[x as int] * mem[y as int]
    };
    &&& position < mem.len()
    &&& code == 99 || {
        &&& code == 1 || code == 2
        &&& position + 3 < mem.len()
        &&& x < mem.len() && y < mem.len() && to < mem.len()
        &&& value <= usize::MAX
        &&& well_formed(mem.update(to as int, value as usize), (position + 4) as usize)
    }
}

/// Every run ends, halted or with a fault, and leaves memory at the length
/// that it had.
pub proof fn run_ends(mem: Seq<usize>, position: usize)
    requires
        mem.len() <= usize::MAX,
    ensures
        run(mem, position).0 is Finished || run(mem, position).0 is Error,
        run(mem, position).1.len() == mem.len(),
    decreases mem.len() - position,
{
    step_moves_on(mem, position);
    let (outcome, after) = step(mem, position);
    if let Run::Continue(next) = outcome {
        run_ends(after, next.position);
    }
}

/// A run halts if and only if it meets nothing but well-formed additions
/// and multiplications whose addresses lie inside memory and whose results
/// fit a cell, and then a stop. Every other run ends with a fault.
pub proof fn run_halts_iff_well_formed(mem: Seq<usize>, position: usize)
    requires
        mem.len() <= usize::MAX,
    ensures
        run(mem, position).0 == Run::Finished <==> well_formed(mem, position),
    decreases mem.len() - position,
{
    step_moves_on(mem, position);
    let (outcome, after) = step(mem, position);
    if let Run::Continue(next) = outcome {
        run_halts_iff_well_formed(after, next.position);
    }
}

/// A run whose pointer has left memory ends there, with the fault of a read
/// outside of memory at the pointer's address, and leaves memory as it was.
pub proof fn run_off_the_end_faults(mem: Seq<usize>, position: usize)
    requires
        mem.len() <= position <= usize::MAX,
    ensures
        run(mem, position) == (
            Run::Error(
                RunError::Eval(EvalError(OpCodeParseError::Register(RegisterErr::Missing(position)))),
            ),
            mem,
        ),
{
}

/// A run that comes to a cell that names no operation ends there, with a
/// fault that holds the cell's value and its address, and leaves memory as
/// it was.
pub proof fn unknown_opcode_faults(mem: Seq<usize>, position: usize)
    requires
        position < mem.len() <= usize::MAX,
        mem[position as int] != 1,
        mem[position as int] != 2,
        mem[position as int] != 99,
    ensures
        run(mem, position) == (
            Run::Error(
                RunError::Eval(
                    EvalError(
                        OpCodeParseError::UnknownOpcode { value: mem[position as int], position },
                    ),
                ),
            ),
            mem,
        ),
{
}

/// Reading an instruction is a function of the address and of memory: two
/// reads at one address of one memory give the same.
pub proof fn parse_is_pure(
    position: usize,
    registers: &Registers,
    first: Result<OpCode, OpCodeParseError>,
    second: Result<OpCode, OpCodeParseError>,
)
    requires
        call_ensures(OpCode::parse, (position, registers), first),
        call_ensures(OpCode::parse, (position, registers), second),
    ensures
        first == second,
{
}

impl OpCodeParseError {
    /// What the error says.
    pub open spec fn message(self) -> Seq<char> {
        "Failure parsing OpCode: "@ + match self {
            OpCodeParseError::Register(e) => e.message(),
            OpCodeParseError::UnknownOpcode { value, position } => "Invalid op code "@
                + text::decimal_of(value as nat) + " at position "@ + text::decimal_of(
                position as nat,
            ),
        }
    }

    /// The error in words.
    pub fn to_string(&self) -> (s: String)
        ensures
            s@ == self.message(),
    {
        let mut s = String::from_str("Failure parsing OpCode: ");
        match *self {
            OpCodeParseError::Register(e) => {
                s.append(e.to_string().as_str());
            },
            OpCodeParseError::UnknownOpcode { value, position } => {
                s.append("Invalid op code ");
                s.append(text::decimal(value as u64).as_str());
                s.append(" at position ");
                s.append(text::decimal(position as u64).as_str());
            },
        }
        s
    }
}

impl OpApplicationError {
    /// What the error says.
    pub open spec fn message(self) -> Seq<char> {
        match self {
            OpApplicationError::Stop => "Attempted to apply Stop op code"@,
            OpApplicationError::Register(e) => "Math failed: "@ + e.message(),
            OpApplicationError::ArithmeticOverflow(x, y) => "Math failed: the result of "@
                + text::decimal_of(x as nat) + " and "@ + text::decimal_of(y as nat)
                + " does not fit a register"@,
        }
    }

    /// The error in words.
    pub fn to_string(&self) -> (s: String)
        ensures
            s@ == self.message(),
    {
        match *self {
            OpApplicationError::Stop => String::from_str("Attempted to apply Stop op code"),
            OpApplicationError::Register(e) => {
                let mut s = String::from_str("Math failed: ");
                s.append(e.to_string().as_str());
                s
            },
            OpApplicationError::ArithmeticOverflow(x, y) => {
                let mut s = String::from_str("Math failed: the result of ");
                s.append(text::decimal(x as u64).as_str());
                s.append(" and ");
                s.append(text::decimal(y as u64).as_str());
                s.append(" does not fit a register");
                s
            },
        }
    }
}

impl EvalError {
    /// What the error says.
    pub open spec fn message(self) -> Seq<char> {
        "Error in evaluation: "@ + self.0.message()
    }

    /// The error in words.
    pub fn to_string(&self) -> (s: String)
        ensures
            s@ == self.message(),
    {
        let mut s = String::from_str("Error in evaluation: ");
        s.append(self.0.to_string().as_str());
        s
    }
}

impl RunError {
    /// What the error says.
    pub open spec fn message(self) -> Seq<char> {
        "Error running script: "@ + match self {
            RunError::Eval(e) => e.message(),
            RunError::Apply(e) => e.message(),
        }
    }

    /// The error in words.
    pub fn to_string(&self) -> (s: String)
        ensures
            s@ == self.message(),
    {
        let mut s = String::from_str("Error running script: ");
        match *self {
            RunError::Eval(e) => {
                s.append(e.to_string().as_str());
            },
            RunError::Apply(e) => {
                s.append(e.to_string().as_str());
            },
        }
        s
    }
}

} // verus!
