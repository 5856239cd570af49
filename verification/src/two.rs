//! The second puzzle: a small stored-program machine.
//!
//! The machine's memory is a flat array of unsigned integers, loaded from
//! text. An instruction pointer walks over it four cells at a time: the
//! cell under the pointer names the operation, the three cells after it are
//! the addresses of the two operands and of the result. The run ends at a
//! stop instruction, or with a fault.
//!
//! A sum or product that does not fit a memory cell is a fault of its own:
//! the machine never wraps and never saturates.

use vstd::prelude::*;
use vstd::string::StringExecFns;

use crate::challenge;
use crate::challenge::{ChallengeResult, Source};
use crate::input;
use crate::text;
use crate::text::cells;

pub mod machine;
pub mod memory;

pub use self::machine::{
    run, run_script, run_step, EvalError, EvalStep, OpApplicationError, OpCode, OpCodeParseError,
    Run, RunError,
};
pub use self::memory::{
    is_first_bad, loads, memory_of, ProgramParseError, RegisterErr, Registers,
};

verus! {

/// Why a program gave no final memory.
#[derive(Debug, PartialEq, Eq)]
pub enum Fault {
    /// The program text could not be loaded.
    Parse(ProgramParseError),
    /// A value to be set before the run has no cell to go to.
    Patch(RegisterErr),
    /// The run ended with a fault.
    Run(RunError),
}

impl Fault {
    /// What the fault says.
    pub open spec fn message(&self) -> Seq<char> {
        match self {
            Fault::Parse(e) => e.message(),
            Fault::Patch(e) => e.message(),
            Fault::Run(e) => e.message(),
        }
    }

    /// The fault in words.
    pub fn to_string(&self) -> (s: String)
        ensures
            s@ == self.message(),
    {
        match self {
            Fault::Parse(e) => e.to_string(),
            Fault::Patch(e) => e.to_string(),
            Fault::Run(e) => e.to_string(),
        }
    }
}

/// `mem` with `noun`, if there is one, written to address 1, and then
/// `verb`, if there is one, to address 2.
pub open spec fn patch(mem: Seq<usize>, noun: Option<usize>, verb: Option<usize>) -> Result<
    Seq<usize>,
    RegisterErr,
> {
    let first = match noun {
        Some(n) => mem.update(1, n),
        None => mem,
    };
    if noun is Some && mem.len() <= 1 {
        Err(RegisterErr::Insert(1))
    } else if verb is Some && mem.len() <= 2 {
        Err(RegisterErr::Insert(2))
    } else {
        Ok(
            match verb {
                Some(v) => first.update(2, v),
                None => first,
            },
        )
    }
}

/// Whether `outcome` is what comes of loading `program`, setting `noun`
/// and `verb`, and running the machine from address 0: the memory at the
/// halt, or the first thing that went wrong.
pub open spec fn executes(
    program: Seq<char>,
    noun: Option<usize>,
    verb: Option<usize>,
    outcome: Result<Seq<usize>, Fault>,
) -> bool {
    let start = patch(memory_of(program), noun, verb);
    match outcome {
        Err(Fault::Parse(e)) => is_first_bad(program, e.line_no as int, e.col_no as int)
            && e.bad_val@ == cells(program)[e.line_no as int][e.col_no as int],
        Err(Fault::Patch(e)) => loads(program) && start == Err::<Seq<usize>, RegisterErr>(e),
        Err(Fault::Run(e)) => loads(program) && start is Ok && run(start->Ok_0, 0).0
            == Run::Error(e),
        Ok(mem) => loads(program) && start is Ok && run(start->Ok_0, 0) == (Run::Finished, mem)
            && mem.len() == memory_of(program).len(),
    }
}

/// Loads `program`, writes `noun` to address 1 and `verb` to address 2
/// where they are given, and runs the machine. The result is the memory at
/// the halt.
pub fn execute(program: &str, noun: Option<usize>, verb: Option<usize>) -> (r: Result<
    Registers,
    Fault,
>)
    ensures
        executes(
            program@,
            noun,
            verb,
            match r {
                Ok(registers) => Ok(registers@),
                Err(fault) => Err(fault),
            },
        ),
{
    let mut registers = match Registers::from_program(program) {
        Ok(registers) => registers,
        Err(e) => {
            return Err(Fault::Parse(e));
        },
    };
    if let Some(n) = noun {
        if let Err(e) = registers.set(1, n) {
            return Err(Fault::Patch(e));
        }
    }
    if let Some(v) = verb {
        if let Err(e) = registers.set(2, v) {
            return Err(Fault::Patch(e));
        }
    }
    match run_script(&mut registers) {
        Run::Error(e) => Err(Fault::Run(e)),
        // a run ends halted or with a fault
        _ => Ok(registers),
    }
}

/// The solver of the second puzzle: it runs the puzzle's program with 12 at
/// address 1 and 2 at address 2, and reports the value at address 0.
pub struct Challenge {}

/// The line that reports `val` as the value left at address 0.
pub open spec fn final_value_line(val: usize) -> Seq<char> {
    "Final value: "@ + text::decimal_of(val as nat)
}

/// Whether `r` is the answer to a program that came to `outcome`: the line
/// that reports the value at address 0, or a failure with the fault's
/// message.
pub open spec fn answers(outcome: Result<Seq<usize>, Fault>, r: ChallengeResult) -> bool {
    match outcome {
        Ok(mem) => r matches Ok(line) && line@ == final_value_line(mem[0]),
        Err(fault) => r matches Err(challenge::Error::Failure(msg)) && msg@ == fault.message(),
    }
}

/// Reports the value at address 0.
pub fn report_result(regs: &Registers) -> (r: ChallengeResult)
    ensures
        match r {
            Ok(line) => regs@.len() > 0 && line@ == final_value_line(regs@[0]),
            Err(e) => {
                &&& regs@.len() == 0
                &&& e matches challenge::Error::Failure(msg)
                &&& msg@ == "Cannot report result from invalid registers: "@
                    + RegisterErr::Missing(0).message()
            },
        },
{
    match regs.at(0) {
        Ok(val) => {
            let mut line = String::from_str("Final value: ");
            line.append(text::decimal(*val as u64).as_str());
            Ok(line)
        },
        Err(e) => {
            let mut msg = String::from_str("Cannot report result from invalid registers: ");
            msg.append(e.to_string().as_str());
            Err(challenge::Error::Failure(msg))
        },
    }
}

impl Challenge {
    /// The solver of the second puzzle.
    pub fn new() -> Self {
        Self {  }
    }

    /// Part one: runs `script` with 12 at address 1 and 2 at address 2.
    pub fn one(&mut self, script: &str) -> (r: ChallengeResult)
        ensures
            exists|outcome: Result<Seq<usize>, Fault>|
                executes(script@, Some(12usize), Some(2usize), outcome) && answers(outcome, r),
    {
        match execute(script, Some(12), Some(2)) {
            Ok(registers) => {
                let r = report_result(&registers);
                assert(executes(script@, Some(12usize), Some(2usize), Ok(registers@)));
                assert(answers(Ok(registers@), r));
                r
            },
            Err(fault) => {
                let r = Err(challenge::Error::Failure(fault.to_string()));
                assert(executes(script@, Some(12usize), Some(2usize), Err(fault)));
                assert(answers(Err(fault), r));
                r
            },
        }
    }
}

impl challenge::Challenge for Challenge {
    open spec fn input_of(&self, part: Seq<char>) -> Option<(Seq<char>, Seq<char>)> {
        if part == "one"@ {
            Some(("2"@, "1.txt"@))
        } else {
            None
        }
    }

    open spec fn solves(&self, part: Seq<char>, input: Result<&str, &str>, r: ChallengeResult) -> bool {
        if part == "one"@ {
            match input {
                Ok(script) => exists|outcome: Result<Seq<usize>, Fault>|
                    executes(script@, Some(12usize), Some(2usize), outcome) && answers(
                        outcome,
                        r,
                    ),
                Err(e) => r matches Err(challenge::Error::Failure(msg)) && msg@
                    == input::read_error_message("2"@, "1"@, "1.txt"@, e@),
            }
        } else {
            r matches Err(challenge::Error::MissingPart(msg)) && msg@ == "No part "@ + part
                + " available"@
        }
    }

    fn source(&self, part: &str) -> (r: Option<Source>) {
        if text::same(part, "one") {
            Some(Source { challenge: "2", part: "1.txt" })
        } else {
            None
        }
    }

    fn run(&mut self, part: &str, input: Result<&str, &str>) -> (r: ChallengeResult) {
        if text::same(part, "one") {
            match input {
                Ok(script) => self.one(script),
                Err(e) => Err(input::read_error("2", "1", "1.txt", e)),
            }
        } else {
            let mut msg = String::from_str("No part ");
            msg.append(part);
            msg.append(" available");
            Err(challenge::Error::MissingPart(msg))
        }
    }
}

} // verus!
