//! What every puzzle solver offers, and how one fails.

use vstd::prelude::*;

verus! {

/// Why a challenge gave no answer. Each variant holds the message for the
/// user.
#[derive(Debug, PartialEq, Eq)]
pub enum Error {
    /// The challenge has no such part.
    MissingPart(String),
    /// The part was run and failed.
    Failure(String),
}

/// The line that a part prints, or its failure.
pub type ChallengeResult = Result<String, Error>;

/// The file that holds the input of a challenge's part:
/// `inputs/<challenge>/<part>`.
#[derive(Debug, Clone, Copy, PartialEq, Eq)]
pub struct Source {
    /// The directory of the challenge below `inputs`.
    pub challenge: &'static str,
    /// The name of the part's file in that directory.
    pub part: &'static str,
}

/// A puzzle solver. It does no reading and no printing of its own: it says
/// which file a part works on, takes what came of reading it, and gives
/// back the line to print.
pub trait Challenge {
    /// The file that `part` works on, as the directory and the file's name;
    /// `None` where the challenge has no such part, or the part needs no
    /// input.
    spec fn input_of(&self, part: Seq<char>) -> Option<(Seq<char>, Seq<char>)>;

    /// Whether `r` is what `part` comes to on `input`.
    spec fn solves(&self, part: Seq<char>, input: Result<&str, &str>, r: ChallengeResult) -> bool;

    /// The file that `part` works on.
    fn source(&self, part: &str) -> (r: Option<Source>)
        ensures
            match r {
                Some(file) => self.input_of(part@) == Some((file.challenge@, file.part@)),
                None => self.input_of(part@) is None,
            },
    ;

    /// Runs `part`. `input` is the text of the file that `source` names for
    /// the part, or the reason why it could not be read. A part without a
    /// source looks at neither.
    fn run(&mut self, part: &str, input: Result<&str, &str>) -> (r: ChallengeResult)
        ensures
            old(self).solves(part@, input, r),
    ;
}

impl Error {
    /// The message that the error holds.
    pub open spec fn message(&self) -> Seq<char> {
        match self {
            Error::MissingPart(s) => s@,
            Error::Failure(s) => s@,
        }
    }

    /// The message for the user.
    pub fn to_string(&self) -> (s: String)
        ensures
            s@ == self.message(),
    {
        match self {
            Error::MissingPart(s) => s.clone(),
            Error::Failure(s) => s.clone(),
        }
    }
}

} // verus!
