//! Finds the solver of a day's puzzle and runs it.

use vstd::prelude::*;
use vstd::string::StringExecFns;

use crate::challenge;
use crate::challenge::{Challenge, ChallengeResult, Source};
use crate::one;
use crate::text;
use crate::two;

verus! {

/// The solvers that can be run, each under the name of its day: `one` and
/// `two`.
pub struct Runner {
    one: one::Challenge,
    two: two::Challenge,
}

/// Why a run gave no answer. Each variant holds the message for the user.
#[derive(Debug, PartialEq, Eq)]
pub enum Error {
    /// No solver goes by the name of the day.
    MissingChallenge(String),
    /// The solver failed.
    Failure(String),
}

/// Whether `r` hands on what the solver came to, `inner`: its line, or a
/// failure with the message of its error.
pub open spec fn passes(inner: ChallengeResult, r: Result<String, Error>) -> bool {
    match inner {
        Ok(line) => r matches Ok(out) && out@ == line@,
        Err(e) => r matches Err(Error::Failure(msg)) && msg@ == e.message(),
    }
}

/// Whether `r` is what running part `part` of day `day` on `input` comes
/// to.
pub open spec fn runs(
    day: Seq<char>,
    part: Seq<char>,
    input: Result<&str, &str>,
    r: Result<String, Error>,
) -> bool {
    if day == "one"@ {
        exists|inner: ChallengeResult|
            (one::Challenge {  }).solves(part, input, inner) && passes(inner, r)
    } else if day == "two"@ {
        exists|inner: ChallengeResult|
            (two::Challenge {  }).solves(part, input, inner) && passes(inner, r)
    } else {
        r matches Err(Error::MissingChallenge(msg)) && msg@ == "No challenge for day "@ + day
            + " has been registered"@
    }
}

/// The file that part `part` of day `day` works on, as the directory and
/// the file's name; `None` where there is no such day or part.
pub open spec fn input_of(day: Seq<char>, part: Seq<char>) -> Option<(Seq<char>, Seq<char>)> {
    if day == "one"@ {
        (one::Challenge {  }).input_of(part)
    } else if day == "two"@ {
        (two::Challenge {  }).input_of(part)
    } else {
        None
    }
}

/// Hands on what a solver came to.
fn pass(inner: ChallengeResult) -> (r: Result<String, Error>)
    ensures
        passes(inner, r),
{
    match inner {
        Ok(line) => Ok(line),
        Err(e) => Err(Error::Failure(e.to_string())),
    }
}

impl Error {
    /// The message that the error holds.
    pub open spec fn message(&self) -> Seq<char> {
        match self {
            Error::MissingChallenge(s) => s@,
            Error::Failure(s) => s@,
        }
    }

    /// The message for the user.
    pub fn to_string(&self) -> (s: String)
        ensures
            s@ == self.message(),
    {
        match self {
            Error::MissingChallenge(s) => s.clone(),
            Error::Failure(s) => s.clone(),
        }
    }
}

impl Runner {
    /// A runner that knows the solvers of the days `one` and `two`.
    pub fn new() -> Self {
        Self { one: one::Challenge::new(), two: two::Challenge::new() }
    }

    /// The file that part `part` of day `day` works on; `None` where there
    /// is no such day or part.
    pub fn source(&self, day: &str, part: &str) -> (r: Option<Source>)
        ensures
            match r {
                Some(file) => input_of(day@, part@) == Some((file.challenge@, file.part@)),
                None => input_of(day@, part@) is None,
            },
    {
        proof {
            reveal_strlit("one");
            reveal_strlit("two");
            assert("two"@[0] != "one"@[0]);
        }
        if text::same(day, "one") {
            self.one.source(part)
        } else if text::same(day, "two") {
            self.two.source(part)
        } else {
            None
        }
    }

    /// Runs part `part` of day `day`. `input` is the text of the file that
    /// `source` names for them, or the reason why it could not be read.
    pub fn run(&mut self, day: &str, part: &str, input: Result<&str, &str>) -> (r: Result<
        String,
        Error,
    >)
        ensures
            runs(day@, part@, input, r),
    {
        if text::same(day, "one") {
            pass(self.one.run(part, input))
        } else if text::same(day, "two") {
            proof {
                reveal_strlit("one");
                reveal_strlit("two");
                assert("two"@[0] != "one"@[0]);
            }
            pass(self.two.run(part, input))
        } else {
            let mut msg = String::from_str("No challenge for day ");
            msg.append(day);
            msg.append(" has been registered");
            Err(Error::MissingChallenge(msg))
        }
    }
}

} // verus!
