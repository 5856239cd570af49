//! Where the puzzles' inputs are found, and what is said when one cannot be
//! read.

use vstd::prelude::*;
use vstd::string::StringExecFns;

use crate::challenge;

verus! {

/// The path of the input file of a challenge's part.
pub open spec fn path_of(challenge: Seq<char>, part: Seq<char>) -> Seq<char> {
    "inputs/"@ + challenge + "/"@ + part
}

/// What is said when the input file `filename` of a challenge's part could
/// not be read, and the reading failed with `e`.
pub open spec fn read_error_message(
    challenge: Seq<char>,
    part: Seq<char>,
    filename: Seq<char>,
    e: Seq<char>,
) -> Seq<char> {
    "Failed to read input file "@ + filename + " for part "@ + part + " of challenge "@
        + challenge + ": "@ + e
}

/// The path of the input file of a challenge's part, from the directory in
/// which the program runs.
pub fn path(challenge: &str, part: &str) -> (p: String)
    ensures
        p@ == path_of(challenge@, part@),
{
    let mut p = String::from_str("inputs/");
    p.append(challenge);
    p.append("/");
    p.append(part);
    p
}

/// The failure of a part whose input file could not be read. `e` says what
/// went wrong with the reading.
pub fn read_error(challenge: &str, part: &str, filename: &str, e: &str) -> (r: challenge::Error)
    ensures
        r matches challenge::Error::Failure(s) && s@ == read_error_message(
            challenge@,
            part@,
            filename@,
            e@,
        ),
{
    let mut s = String::from_str("Failed to read input file ");
    s.append(filename);
    s.append(" for part ");
    s.append(part);
    s.append(" of challenge ");
    s.append(challenge);
    s.append(": ");
    s.append(e);
    challenge::Error::Failure(s)
}

} // verus!
