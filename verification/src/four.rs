//! The fourth puzzle: how many numbers of a range could be the password.

use vstd::prelude::*;

use crate::challenge;
use crate::challenge::{ChallengeResult, Source};
use crate::text;

verus! {

/// The solver of the fourth puzzle. Its range is fixed, so it reads no
/// input, and it has one answer whatever part is asked for.
pub struct Challenge {}

/// The lowest number of the puzzle's range.
pub const LOW: u64 = 134792;

/// The highest number of the puzzle's range.
pub const HIGH: u64 = 675810;

/// The decimal digits of `n`, the most significant first; `0` has the one
/// digit 0.
pub open spec fn digits_of(n: nat) -> Seq<u64>
    decreases n,
{
    if n < 10 {
        seq![n as u64]
    } else {
        digits_of(n / 10).push((n % 10) as u64)
    }
}

/// Whether two neighbours in `ns` are equal.
pub open spec fn has_pair(ns: Seq<u64>) -> bool {
    exists|i: int| 0 <= i < ns.len() - 1 && #[trigger] ns[i] == ns[i + 1]
}

/// Whether no number in `ns` is larger than the one after it.
pub open spec fn is_ascending(ns: Seq<u64>) -> bool {
    forall|i: int| 0 <= i < ns.len() - 1 ==> #[trigger] ns[i] <= ns[i + 1]
}

/// Whether `n` could be the password: it has six digits, two neighbouring
/// digits are equal, and from left to right the digits never decrease.
pub open spec fn valid(n: nat) -> bool {
    digits_of(n).len() == 6 && has_pair(digits_of(n)) && is_ascending(digits_of(n))
}

/// How many of the numbers from `lo` to `hi`, both included, could be the
/// password.
pub open spec fn count_valid(lo: int, hi: int) -> nat
    decreases hi - lo + 1,
{
    if hi < lo {
        0
    } else if 0 <= hi && valid(hi as nat) {
        1 + count_valid(lo, hi - 1)
    } else {
        count_valid(lo, hi - 1)
    }
}

/// A number of six digits is below a million.
pub proof fn six_digits_are_below_a_million(n: nat)
    requires
        digits_of(n).len() == 6,
    ensures
        n < 1_000_000,
{
    reveal_with_fuel(digits_of, 8);
}

/// The decimal digits of `n`, the most significant first.
pub fn digits(n: u64) -> (digs: Vec<u64>)
    ensures
        digs@ == digits_of(n as nat),
    decreases n,
{
    if n < 10 {
        let mut digs = Vec::new();
        digs.push(n);
        digs
    } else {
        let mut digs = digits(n / 10);
        digs.push(n % 10);
        digs
    }
}

/// Whether two neighbours in `ns` are equal. The length `n` of the run that
/// is asked for is not looked at: the run is always a pair.
pub fn n_contiguous(n: u64, ns: &[u64]) -> (r: bool)
    ensures
        r == has_pair(ns@),
{
    let mut i: usize = 1;
    while i < ns.len()
        invariant
            1 <= i,
            forall|j: int| 0 <= j < i - 1 && j < ns@.len() - 1 ==> #[trigger] ns@[j] != ns@[j + 1],
        decreases ns.len() - i,
    {
        if ns[i - 1] == ns[i] {
            assert(ns@[i - 1] == ns@[i - 1 + 1]);
            return true;
        }
        i += 1;
    }
    false
}

/// Whether no number in `ns` is larger than the one after it.
pub fn ascending(ns: &[u64]) -> (r: bool)
    ensures
        r == is_ascending(ns@),
{
    let mut i: usize = 1;
    while i < ns.len()
        invariant
            1 <= i,
            forall|j: int| 0 <= j < i - 1 && j < ns@.len() - 1 ==> #[trigger] ns@[j] <= ns@[j + 1],
        decreases ns.len() - i,
    {
        if ns[i - 1] > ns[i] {
            assert(ns@[i - 1] > ns@[i - 1 + 1]);
            return false;
        }
        i += 1;
    }
    true
}

/// Whether `n` could be the password.
pub fn is_valid(n: u64) -> (r: bool)
    ensures
        r == valid(n as nat),
{
    let digs = digits(n);
    digs.len() == 6 && n_contiguous(2, digs.as_slice()) && ascending(digs.as_slice())
}

/// Counts the numbers from `lo` to `hi`, both included, that could be the
/// password, by trying each.
pub fn naive(lo: u64, hi: u64) -> (count: usize)
    ensures
        count == count_valid(lo as int, hi as int),
{
    if hi < lo {
        return 0;
    }
    let mut count: usize = 0;
    let mut n: u64 = lo;
    loop
        invariant_except_break
            lo <= n <= hi,
            count <= n - lo,
            count <= 1_000_000,
            count == count_valid(lo as int, n - 1),
        ensures
            count == count_valid(lo as int, hi as int),
        decreases hi - n,
    {
        if is_valid(n) {
            proof {
                six_digits_are_below_a_million(n as nat);
            }
            count += 1;
        }
        if n == hi {
            break;
        }
        n += 1;
    }
    count
}

impl Challenge {
    /// The solver of the fourth puzzle.
    pub fn new() -> Self {
        Self {  }
    }
}

impl challenge::Challenge for Challenge {
    open spec fn input_of(&self, part: Seq<char>) -> Option<(Seq<char>, Seq<char>)> {
        None
    }

    open spec fn solves(&self, part: Seq<char>, input: Result<&str, &str>, r: ChallengeResult) -> bool {
        r matches Ok(line) && line@ == text::decimal_of(count_valid(LOW as int, HIGH as int))
    }

    fn source(&self, part: &str) -> (r: Option<Source>) {
        None
    }

    fn run(&mut self, part: &str, input: Result<&str, &str>) -> (r: ChallengeResult) {
        Ok(text::decimal(naive(LOW, HIGH) as u64))
    }
}

} // verus!
