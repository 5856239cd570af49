//! The first puzzle: the fuel that a list of modules needs.

use vstd::prelude::*;
use vstd::string::StringExecFns;

use crate::challenge;
use crate::challenge::Challenge as _;
use crate::challenge::{ChallengeResult, Source};
use crate::input;
use crate::text;

verus! {

/// The solver of the first puzzle. Part one sums the fuel of the modules;
/// part two also counts the fuel that the fuel needs.
pub struct Challenge {}

/// The fuel for a module of mass `mass`: a third of the mass, rounded down,
/// less two; nothing where that would be negative.
pub open spec fn fuel(mass: nat) -> nat {
    if mass / 3 >= 2 {
        (mass / 3 - 2) as nat
    } else {
        0
    }
}

/// The fuel for a module of mass `mass` and for the fuel itself: the fuel
/// for the mass, then the fuel for that fuel, and so on until an amount
/// needs none.
pub open spec fn total_fuel(mass: nat) -> nat
    decreases mass,
{
    if fuel(mass) == 0 {
        0
    } else {
        fuel(mass) + total_fuel(fuel(mass))
    }
}

/// What is said of a line that is no number.
pub open spec fn parse_failure_message(line: Seq<char>, e: text::NumberError) -> Seq<char> {
    "Failed to parse line containing "@ + line + ": "@ + e.message()
}

/// What is said when the fuel of the modules is more than can be counted.
pub open spec fn overflow_message() -> Seq<char> {
    "The fuel of the modules does not fit in 64 bits"@
}

/// The fuel for the modules whose masses stand on `lines`, where a module
/// of mass `n` needs `requirement(n)`; or what is said of the first line at
/// which this fails, because the line is no number or because the fuel up
/// to it is more than can be counted.
pub open spec fn fuel_sum(lines: Seq<Seq<char>>, requirement: spec_fn(u64) -> u64) -> Result<
    u64,
    Seq<char>,
>
    decreases lines.len(),
{
    if lines.len() == 0 {
        Ok(0)
    } else {
        match fuel_sum(lines.drop_last(), requirement) {
            Err(msg) => Err(msg),
            Ok(sum) => match text::number_of(lines.last(), u64::MAX as nat) {
                Err(e) => Err(parse_failure_message(lines.last(), e)),
                Ok(n) => if requirement(n as u64) + sum > u64::MAX {
                    Err(overflow_message())
                } else {
                    Ok((requirement(n as u64) + sum) as u64)
                },
            },
        }
    }
}

/// Whether the function `f` computes `requirement`: whatever a call of `f`
/// returns is what `requirement` says.
pub open spec fn computes<F: Fn(u64) -> u64>(f: F, requirement: spec_fn(u64) -> u64) -> bool {
    forall|n: u64, out: u64| call_ensures(f, (n,), out) ==> out == requirement(n)
}

/// Whether `r` gives `sum`: the same amount as a line of digits, or a
/// failure with the same message.
pub open spec fn reports(sum: Result<u64, Seq<char>>, r: ChallengeResult) -> bool {
    match sum {
        Ok(total) => r matches Ok(line) && line@ == text::decimal_of(total as nat),
        Err(msg) => r matches Err(challenge::Error::Failure(said)) && said@ == msg,
    }
}

/// The fuel for a module of mass `mass`, without the fuel that the fuel
/// needs.
pub fn fuel_requirement(mass: u64) -> (r: u64)
    ensures
        r == fuel(mass as nat),
{
    (mass / 3).checked_sub(2).unwrap_or(0)
}

/// The total never exceeds the mass.
pub proof fn total_fuel_is_bounded(mass: nat)
    ensures
        total_fuel(mass) <= mass,
    decreases mass,
{
    if fuel(mass) != 0 {
        total_fuel_is_bounded(fuel(mass));
    }
}

/// The fuel for a module of mass `mass` and for the fuel itself.
pub fn recursive_fuel_requirement(mass: u64) -> (r: u64)
    ensures
        r == total_fuel(mass as nat),
{
    let mut total: u64 = 0;
    let mut adjustment = fuel_requirement(mass);
    proof {
        total_fuel_is_bounded(mass as nat);
    }
    while adjustment > 0
        invariant
            total_fuel(mass as nat) <= u64::MAX,
            total_fuel(mass as nat) == total + if adjustment > 0 {
                adjustment + total_fuel(adjustment as nat)
            } else {
                0
            },
        decreases adjustment,
    {
        total += adjustment;
        adjustment = fuel_requirement(adjustment);
    }
    total
}

/// A failure stays: where the fuel of the first `k` lines fails, the fuel of
/// all lines fails in the same way.
pub proof fn fuel_sum_keeps_failure(
    lines: Seq<Seq<char>>,
    requirement: spec_fn(u64) -> u64,
    k: int,
)
    requires
        0 <= k <= lines.len(),
        fuel_sum(lines.take(k), requirement) is Err,
    ensures
        fuel_sum(lines, requirement) == fuel_sum(lines.take(k), requirement),
    decreases lines.len() - k,
{
    if k == lines.len() {
        assert(lines.take(k) =~= lines);
    } else {
        assert(lines.drop_last().take(k) =~= lines.take(k));
        fuel_sum_keeps_failure(lines.drop_last(), requirement, k);
    }
}

/// Sums the fuel of the modules whose masses stand on the lines
/// `modules`, one mass to a line, where `fuel_requirement` gives the fuel
/// for one module. If `fuel_requirement` computes a function
/// `requirement`, the result is `fuel_sum` of the lines and `requirement`.
pub fn calculate_fuel<F: Fn(u64) -> u64>(modules: &Vec<&str>, fuel_requirement: F) -> (r: Result<
    u64,
    challenge::Error,
>)
    requires
        forall|n: u64| call_requires(fuel_requirement, (n,)),
    ensures
        forall|requirement: spec_fn(u64) -> u64|
            computes(fuel_requirement, requirement) ==> match (
                #[trigger] fuel_sum(text::views(modules@), requirement),
                r,
            ) {
                (Ok(sum), Ok(total)) => total == sum,
                (Err(msg), Err(challenge::Error::Failure(said))) => said@ == msg,
                _ => false,
            },
{
    let ghost lines = text::views(modules@);
    let mut sum: u64 = 0;
    let mut i: usize = 0;
    while i < modules.len()
        invariant
            i <= modules.len(),
            lines == text::views(modules@),
            forall|n: u64| call_requires(fuel_requirement, (n,)),
            forall|requirement: spec_fn(u64) -> u64|
                computes(fuel_requirement, requirement) ==> #[trigger] fuel_sum(
                    lines.take(i as int),
                    requirement,
                ) == Ok::<u64, Seq<char>>(sum),
        decreases modules.len() - i,
    {
        let line: &str = modules[i];
        assert(line@ == lines[i as int]);
        assert(lines.take(i + 1).drop_last() =~= lines.take(i as int));
        assert(lines.take(i + 1).last() == line@);
        match text::parse_u64(line) {
            Err(e) => {
                let mut said = String::from_str("Failed to parse line containing ");
                said.append(line);
                said.append(": ");
                said.append(e.to_string().as_str());
                proof {
                    assert forall|requirement: spec_fn(u64) -> u64|
                        computes(fuel_requirement, requirement) implies #[trigger] fuel_sum(
                        lines,
                        requirement,
                    ) == Err::<u64, Seq<char>>(said@) by {
                        assert(fuel_sum(lines.take(i as int), requirement) is Ok);
                        fuel_sum_keeps_failure(lines, requirement, i + 1);
                    }
                }
                return Err(challenge::Error::Failure(said));
            },
            Ok(n) => {
                let needed = fuel_requirement(n);
                match needed.checked_add(sum) {
                    None => {
                        let said = String::from_str(
                            "The fuel of the modules does not fit in 64 bits",
                        );
                        proof {
                            assert forall|requirement: spec_fn(u64) -> u64|
                                computes(
                                    fuel_requirement,
                                    requirement,
                                ) implies #[trigger] fuel_sum(lines, requirement) == Err::<
                                u64,
                                Seq<char>,
                            >(said@) by {
                                assert(fuel_sum(lines.take(i as int), requirement) is Ok);
                                assert(needed == requirement(n));
                                fuel_sum_keeps_failure(lines, requirement, i + 1);
                            }
                        }
                        return Err(challenge::Error::Failure(said));
                    },
                    Some(next) => {
                        proof {
                            assert forall|requirement: spec_fn(u64) -> u64|
                                computes(
                                    fuel_requirement,
                                    requirement,
                                ) implies #[trigger] fuel_sum(
                                lines.take(i + 1),
                                requirement,
                            ) == Ok::<u64, Seq<char>>(next) by {
                                assert(fuel_sum(lines.take(i as int), requirement) is Ok);
                                assert(needed == requirement(n));
                            }
                        }
                        sum = next;
                    },
                }
            },
        }
        i += 1;
    }
    assert(lines.take(i as int) =~= lines);
    Ok(sum)
}

impl Challenge {
    /// The solver of the first puzzle.
    pub fn new() -> Self {
        Self {  }
    }

    /// Part one: the fuel for the modules.
    pub fn part_one(&mut self, input: Result<&str, &str>) -> (r: ChallengeResult)
        ensures
            old(self).solves("one"@, input, r),
    {
        match input {
            Err(e) => Err(input::read_error("one", "one", "1.txt", e)),
            Ok(s) => {
                let modules = text::lines(s);
                match calculate_fuel(&modules, fuel_requirement) {
                    Ok(total) => Ok(text::decimal(total)),
                    Err(e) => Err(e),
                }
            },
        }
    }

    /// Part two: the fuel for the modules and for the fuel.
    pub fn part_two(&mut self, input: Result<&str, &str>) -> (r: ChallengeResult)
        ensures
            old(self).solves("two"@, input, r),
    {
        proof {
            reveal_strlit("one");
            reveal_strlit("two");
            assert("two"@[0] != "one"@[0]);
        }
        match input {
            Err(e) => Err(input::read_error("one", "two", "2.txt", e)),
            Ok(s) => {
                let modules = text::lines(s);
                match calculate_fuel(&modules, recursive_fuel_requirement) {
                    Ok(total) => Ok(text::decimal(total)),
                    Err(e) => Err(e),
                }
            },
        }
    }
}

impl challenge::Challenge for Challenge {
    open spec fn input_of(&self, part: Seq<char>) -> Option<(Seq<char>, Seq<char>)> {
        if part == "one"@ {
            Some(("1"@, "1.txt"@))
        } else if part == "two"@ {
            Some(("1"@, "2.txt"@))
        } else {
            None
        }
    }

    open spec fn solves(&self, part: Seq<char>, input: Result<&str, &str>, r: ChallengeResult) -> bool {
        if part == "one"@ {
            match input {
                Ok(s) => reports(fuel_sum(text::lines_of(s@), |n: u64| fuel(n as nat) as u64), r),
                Err(e) => r matches Err(challenge::Error::Failure(msg)) && msg@
                    == input::read_error_message("one"@, "one"@, "1.txt"@, e@),
            }
        } else if part == "two"@ {
            match input {
                Ok(s) => reports(
                    fuel_sum(text::lines_of(s@), |n: u64| total_fuel(n as nat) as u64),
                    r,
                ),
                Err(e) => r matches Err(challenge::Error::Failure(msg)) && msg@
                    == input::read_error_message("one"@, "two"@, "2.txt"@, e@),
            }
        } else {
            r matches Err(challenge::Error::MissingPart(msg)) && msg@ == part
        }
    }

    fn source(&self, part: &str) -> (r: Option<Source>) {
        if text::same(part, "one") {
            Some(Source { challenge: "1", part: "1.txt" })
        } else if text::same(part, "two") {
            Some(Source { challenge: "1", part: "2.txt" })
        } else {
            None
        }
    }

    fn run(&mut self, part: &str, input: Result<&str, &str>) -> (r: ChallengeResult) {
        if text::same(part, "one") {
            self.part_one(input)
        } else if text::same(part, "two") {
            self.part_two(input)
        } else {
            Err(challenge::Error::MissingPart(part.to_owned()))
        }
    }
}

} // verus!
