//! The third puzzle: where two wires cross closest to the point from which
//! both start.
//!
//! A wire is a line of motions separated by commas. A motion is a
//! direction and a number of steps, as in `R75`.

use std::collections::HashSet;
use vstd::prelude::*;
use vstd::string::StringExecFns;

use crate::challenge;
use crate::challenge::Challenge as _;
use crate::challenge::{ChallengeResult, Source};
use crate::input;
use crate::text;
use crate::text::{cells, is_cell, precedes};

verus! {

/// The solver of the third puzzle.
pub struct Challenge {}

/// The direction of a motion: up, right, down or left.
#[derive(Debug, Eq, PartialEq, Clone, Copy, Structural)]
pub enum Direction {
    /// Up: towards larger `y`.
    U,
    /// Right: towards larger `x`.
    R,
    /// Down: towards smaller `y`.
    D,
    /// Left: towards smaller `x`.
    L,
}

/// A text that names no direction.
#[derive(Debug, PartialEq, Eq)]
pub struct ParseDirectionError(pub String);

/// A number of steps in one direction.
#[derive(Debug, Eq, PartialEq, Clone, Copy, Structural)]
pub struct Motion(pub Direction, pub u64);

/// What is wrong with a text that is no motion.
#[derive(Debug, PartialEq, Eq)]
pub enum MotionCause {
    /// Its first character names no direction.
    Direction(ParseDirectionError),
    /// What follows the first character is no number of steps.
    Distance(text::NumberError),
}

/// A text that is no motion, and what is wrong with it.
#[derive(Debug, PartialEq, Eq)]
pub struct ParseMotionError(pub String, pub MotionCause);

/// A point of the grid: `Pos(x, y)` lies `x` steps to the right of the
/// origin and `y` steps above it.
#[derive(Debug, Eq, PartialEq, Clone, Copy, Structural)]
pub struct Pos(pub i64, pub i64);

impl View for Pos {
    type V = (int, int);

    open spec fn view(&self) -> (int, int) {
        (self.0 as int, self.1 as int)
    }
}

/// The direction that `s` names.
pub open spec fn direction_of(s: Seq<char>) -> Option<Direction> {
    if s == seq!['U'] {
        Some(Direction::U)
    } else if s == seq!['R'] {
        Some(Direction::R)
    } else if s == seq!['D'] {
        Some(Direction::D)
    } else if s == seq!['L'] {
        Some(Direction::L)
    } else {
        None
    }
}

/// The first character of `s`, as a text; empty where `s` is.
pub open spec fn head(s: Seq<char>) -> Seq<char> {
    if s.len() == 0 {
        s
    } else {
        s.take(1)
    }
}

/// What follows the first character of `s`.
pub open spec fn tail(s: Seq<char>) -> Seq<char> {
    if s.len() == 0 {
        s
    } else {
        s.skip(1)
    }
}

/// Whether `s` writes a motion: a direction, then a number of steps.
pub open spec fn is_motion(s: Seq<char>) -> bool {
    direction_of(head(s)) is Some && text::number_of(tail(s), u64::MAX as nat) is Ok
}

/// The motion that `s` writes, where `is_motion(s)`.
pub open spec fn motion_of(s: Seq<char>) -> Motion {
    Motion(
        match direction_of(head(s)) {
            Some(d) => d,
            None => Direction::U,
        },
        match text::number_of(tail(s), u64::MAX as nat) {
            Ok(n) => n as u64,
            Err(_) => 0,
        },
    )
}

/// Whether `e` says what is wrong with `s`, which is no motion: it holds
/// `s`, and either the first character with the direction that it fails to
/// name, or else the reason why the rest is no number.
pub open spec fn explains(e: ParseMotionError, s: Seq<char>) -> bool {
    &&& e.0@ == s
    &&& match e.1 {
        MotionCause::Direction(d) => direction_of(head(s)) is None && d.0@ == head(s),
        MotionCause::Distance(n) => direction_of(head(s)) is Some && text::number_of(
            tail(s),
            u64::MAX as nat,
        ) == Err::<nat, text::NumberError>(n),
    }
}

/// The point `steps` steps from `p` in the direction `d`.
pub open spec fn moved(p: (int, int), d: Direction, steps: int) -> (int, int) {
    match d {
        Direction::U => (p.0, p.1 + steps),
        Direction::R => (p.0 + steps, p.1),
        Direction::D => (p.0, p.1 - steps),
        Direction::L => (p.0 - steps, p.1),
    }
}

/// The distance between `p` and `q` along the grid.
pub open spec fn manhattan(p: (int, int), q: (int, int)) -> nat {
    (if q.0 >= p.0 {
        q.0 - p.0
    } else {
        p.0 - q.0
    } + if q.1 >= p.1 {
        q.1 - p.1
    } else {
        p.1 - q.1
    }) as nat
}

impl Direction {
    /// Reads a direction: one of the letters `U`, `R`, `D` and `L`.
    pub fn from_str(s: &str) -> (r: Result<Self, ParseDirectionError>)
        ensures
            match r {
                Ok(d) => direction_of(s@) == Some(d),
                Err(e) => direction_of(s@) is None && e.0@ == s@,
            },
    {
        proof {
            reveal_strlit("U");
            reveal_strlit("R");
            reveal_strlit("D");
            reveal_strlit("L");
            assert("U"@ =~= seq!['U']);
            assert("R"@ =~= seq!['R']);
            assert("D"@ =~= seq!['D']);
            assert("L"@ =~= seq!['L']);
        }
        if text::same(s, "U") {
            Ok(Direction::U)
        } else if text::same(s, "R") {
            Ok(Direction::R)
        } else if text::same(s, "D") {
            Ok(Direction::D)
        } else if text::same(s, "L") {
            Ok(Direction::L)
        } else {
            Err(ParseDirectionError(s.to_owned()))
        }
    }
}

impl Motion {
    /// The single steps that make up the motion: as many motions of one
    /// step in its direction as it has steps.
    pub fn expand(&self) -> (steps: Vec<Motion>)
        requires
            self.1 <= usize::MAX,
        ensures
            steps@ == Seq::new(self.1 as nat, |i: int| Motion(self.0, 1)),
    {
        let mut steps: Vec<Motion> = Vec::new();
        let mut i: u64 = 0;
        while i < self.1
            invariant
                i <= self.1,
                steps@ == Seq::new(i as nat, |i: int| Motion(self.0, 1)),
            decreases self.1 - i,
        {
            steps.push(Motion(self.0, 1));
            i += 1;
            assert(steps@ =~= Seq::new(i as nat, |i: int| Motion(self.0, 1)));
        }
        steps
    }

    /// Reads a motion: the first character is the direction, the rest is
    /// the number of steps.
    pub fn from_str(s: &str) -> (r: Result<Self, ParseMotionError>)
        ensures
            match r {
                Ok(m) => is_motion(s@) && m == motion_of(s@),
                Err(e) => !is_motion(s@) && explains(e, s@),
            },
    {
        let n = s.unicode_len();
        let (dir, rest) = if n == 0 {
            (s, s)
        } else {
            (text::piece(s, 0, 1), text::piece(s, 1, n))
        };
        assert(dir@ =~= head(s@));
        assert(rest@ =~= tail(s@));
        match Direction::from_str(dir) {
            Err(e) => Err(ParseMotionError(s.to_owned(), MotionCause::Direction(e))),
            Ok(d) => match text::parse_u64(rest) {
                Err(e) => Err(ParseMotionError(s.to_owned(), MotionCause::Distance(e))),
                Ok(n) => Ok(Motion(d, n)),
            },
        }
    }
}

impl Pos {
    /// The point from which the wires start.
    pub fn origin() -> (p: Self)
        ensures
            p@ == (0int, 0int),
    {
        Self(0, 0)
    }

    /// The point that `mot` leads to from here.
    pub fn mv(&self, mot: &Motion) -> (p: Self)
        requires
            i64::MIN <= moved(self@, mot.0, mot.1 as int).0 <= i64::MAX,
            i64::MIN <= moved(self@, mot.0, mot.1 as int).1 <= i64::MAX,
        ensures
            p@ == moved(self@, mot.0, mot.1 as int),
    {
        let steps = mot.1 as i128;
        match mot.0 {
            Direction::U => Self(self.0, (self.1 as i128 + steps) as i64),
            Direction::R => Self((self.0 as i128 + steps) as i64, self.1),
            Direction::D => Self(self.0, (self.1 as i128 - steps) as i64),
            Direction::L => Self((self.0 as i128 - steps) as i64, self.1),
        }
    }

    /// The distance from here to `other` along the grid.
    pub fn dist(&self, other: &Self) -> (d: u64)
        requires
            manhattan(self@, other@) <= u64::MAX,
        ensures
            d == manhattan(self@, other@),
    {
        let dx = other.0 as i128 - self.0 as i128;
        let dy = other.1 as i128 - self.1 as i128;
        let ax = if dx >= 0 {
            dx
        } else {
            -dx
        };
        let ay = if dy >= 0 {
            dy
        } else {
            -dy
        };
        (ax + ay) as u64
    }
}

/// The number of steps of the wire `w`.
pub open spec fn wire_length(w: Seq<Motion>) -> nat
    decreases w.len(),
{
    if w.len() == 0 {
        0
    } else {
        wire_length(w.drop_last()) + w.last().1 as nat
    }
}

/// The point at which the wire `w` ends. Every wire starts at the origin.
pub open spec fn end_of(w: Seq<Motion>) -> (int, int)
    decreases w.len(),
{
    if w.len() == 0 {
        (0, 0)
    } else {
        moved(end_of(w.drop_last()), w.last().0, w.last().1 as int)
    }
}

/// The points that the motion `m` runs over from `p`, in order: `p` itself
/// is not among them, the point that `m` leads to is the last.
pub open spec fn stretch(p: (int, int), m: Motion) -> Seq<(int, int)> {
    Seq::new(m.1 as nat, |i: int| moved(p, m.0, i + 1))
}

/// The points that the wire `w` runs over, in order: one for each of its
/// steps. The origin is among them only if the wire comes back to it.
pub open spec fn visited(w: Seq<Motion>) -> Seq<(int, int)>
    decreases w.len(),
{
    if w.len() == 0 {
        Seq::empty()
    } else {
        visited(w.drop_last()) + stretch(end_of(w.drop_last()), w.last())
    }
}

/// Whether a wire of this length can be followed: its steps can be counted,
/// and no step leaves the grid.
pub open spec fn fits(length: nat) -> bool {
    length <= i64::MAX && length <= usize::MAX
}

/// The points of `path` as pairs of integers.
pub open spec fn points(path: Seq<Pos>) -> Seq<(int, int)> {
    path.map_values(|p: Pos| p@)
}

/// A wire runs over one point for each of its steps, and none of them, nor
/// its end, is further from the origin than the wire is long.
pub proof fn wire_stays_near(w: Seq<Motion>)
    ensures
        visited(w).len() == wire_length(w),
        manhattan((0, 0), end_of(w)) <= wire_length(w),
        forall|i: int|
            0 <= i < visited(w).len() ==> manhattan((0, 0), #[trigger] visited(w)[i])
                <= wire_length(w),
    decreases w.len(),
{
    if w.len() > 0 {
        wire_stays_near(w.drop_last());
    }
}

/// A part of a wire, from its start, is no longer than the wire.
pub proof fn wire_length_grows(w: Seq<Motion>, k: int)
    requires
        0 <= k <= w.len(),
    ensures
        wire_length(w.take(k)) <= wire_length(w),
    decreases w.len() - k,
{
    if k == w.len() {
        assert(w.take(k) =~= w);
    } else {
        assert(w.drop_last().take(k) =~= w.take(k));
        wire_length_grows(w.drop_last(), k);
    }
}

/// The number of steps of the wire, if it fits 64 bits.
pub fn length(motions: &Vec<Motion>) -> (r: Option<u64>)
    ensures
        match r {
            Some(n) => n == wire_length(motions@),
            None => wire_length(motions@) > u64::MAX,
        },
{
    let mut n: u64 = 0;
    let mut i: usize = 0;
    while i < motions.len()
        invariant
            i <= motions.len(),
            n == wire_length(motions@.take(i as int)),
        decreases motions.len() - i,
    {
        assert(motions@.take(i + 1).drop_last() =~= motions@.take(i as int));
        match n.checked_add(motions[i].1) {
            Some(sum) => {
                n = sum;
            },
            None => {
                proof {
                    wire_length_grows(motions@, i + 1);
                }
                return None;
            },
        }
        i += 1;
    }
    assert(motions@.take(i as int) =~= motions@);
    Some(n)
}

/// The points that the wire runs over, in order.
pub fn positions(motions: &Vec<Motion>) -> (path: Vec<Pos>)
    requires
        fits(wire_length(motions@)),
    ensures
        points(path@) == visited(motions@),
{
    let mut path: Vec<Pos> = Vec::new();
    let mut p = Pos::origin();
    let mut i: usize = 0;
    while i < motions.len()
        invariant
            i <= motions.len(),
            fits(wire_length(motions@)),
            p@ == end_of(motions@.take(i as int)),
            points(path@) == visited(motions@.take(i as int)),
        decreases motions.len() - i,
    {
        let ghost before = motions@.take(i as int);
        let ghost start = p@;
        let ghost m = motions@[i as int];
        proof {
            assert(motions@.take(i + 1).drop_last() =~= before);
            wire_length_grows(motions@, i + 1);
            wire_stays_near(before);
        }
        let steps = motions[i].expand();
        let mut j: usize = 0;
        while j < steps.len()
            invariant
                j <= steps.len(),
                steps@ == Seq::new(m.1 as nat, |k: int| Motion(m.0, 1)),
                manhattan((0, 0), start) + m.1 <= i64::MAX,
                p@ == moved(start, m.0, j as int),
                points(path@) == visited(before) + stretch(start, m).take(j as int),
            decreases steps.len() - j,
        {
            let ghost so_far = path@;
            assert(steps@[j as int] == Motion(m.0, 1));
            p = p.mv(&steps[j]);
            path.push(p);
            j += 1;
            proof {
                assert(points(so_far.push(p)) =~= points(so_far).push(p@));
                assert(stretch(start, m).take(j as int) =~= stretch(start, m).take(j - 1).push(
                    p@,
                ));
            }
        }
        assert(stretch(start, m).take(j as int) =~= stretch(start, m));
        i += 1;
    }
    assert(motions@.take(i as int) =~= motions@);
    path
}

/// Why two wires have no closest crossing.
#[derive(Debug, PartialEq, Eq)]
pub enum WireError {
    /// A field of the text is no motion.
    Parse(ParseMotionError),
    /// The text has fewer than two lines.
    MissingWire,
    /// One of the two wires has more steps than can be told apart.
    TooLong,
    /// The two wires have no point in common.
    NoCrossing,
}

/// Whether every field of `text` is a motion.
pub open spec fn all_motions(text: Seq<char>) -> bool {
    forall|line: int, col: int|
        is_cell(text, line, col) ==> is_motion(#[trigger] cells(text)[line][col])
}

/// Whether the field `col` of line `line` is the first of `text`, in
/// reading order, that is no motion.
pub open spec fn is_first_bad(text: Seq<char>, line: int, col: int) -> bool {
    &&& is_cell(text, line, col)
    &&& !is_motion(cells(text)[line][col])
    &&& forall|l: int, c: int|
        is_cell(text, l, c) && precedes(l, c, line, col) ==> is_motion(
            #[trigger] cells(text)[l][c],
        )
}

/// The motions that `fields` write.
pub open spec fn motions_of(fields: Seq<Seq<char>>) -> Seq<Motion> {
    fields.map_values(|field: Seq<char>| motion_of(field))
}

/// The wire that line `line` of `text` writes.
pub open spec fn wire(text: Seq<char>, line: int) -> Seq<Motion> {
    motions_of(cells(text)[line])
}

/// Whether both `a` and `b` run over `p`.
pub open spec fn is_crossing(a: Seq<(int, int)>, b: Seq<(int, int)>, p: (int, int)) -> bool {
    a.contains(p) && b.contains(p)
}

/// Whether `d` is the distance from the origin to the nearest point that
/// both `a` and `b` run over.
pub open spec fn is_closest(a: Seq<(int, int)>, b: Seq<(int, int)>, d: nat) -> bool {
    &&& exists|p: (int, int)| is_crossing(a, b, p) && manhattan((0, 0), p) == d
    &&& forall|p: (int, int)| is_crossing(a, b, p) ==> d <= manhattan((0, 0), p)
}

/// Whether `r` is what the two wires of `text` come to: the distance from
/// the origin to their nearest crossing, or the first reason why there is
/// none. The first two lines of the text are the wires; all of its lines
/// must hold motions.
pub open spec fn crosses(text: Seq<char>, r: Result<u64, WireError>) -> bool {
    match r {
        Err(WireError::Parse(e)) => exists|line: int, col: int|
            is_first_bad(text, line, col) && explains(e, #[trigger] cells(text)[line][col]),
        Err(WireError::MissingWire) => all_motions(text) && cells(text).len() < 2,
        Err(WireError::TooLong) => all_motions(text) && cells(text).len() >= 2 && !(fits(
            wire_length(wire(text, 0)),
        ) && fits(wire_length(wire(text, 1)))),
        Err(WireError::NoCrossing) => all_motions(text) && cells(text).len() >= 2 && fits(
            wire_length(wire(text, 0)),
        ) && fits(wire_length(wire(text, 1))) && forall|p: (int, int)|
            !is_crossing(visited(wire(text, 0)), visited(wire(text, 1)), p),
        Ok(d) => all_motions(text) && cells(text).len() >= 2 && fits(wire_length(wire(text, 0)))
            && fits(wire_length(wire(text, 1))) && is_closest(
            visited(wire(text, 0)),
            visited(wire(text, 1)),
            d as nat,
        ),
    }
}

/// A number that stands for the point `p`.
pub open spec fn key_of(p: (int, int)) -> int {
    p.0 * 0x1_0000_0000_0000_0000 + (p.1 + 0x8000_0000_0000_0000)
}

/// The number that stands for the point `p`. No two points share one.
fn key(p: Pos) -> (k: i128)
    ensures
        k == key_of(p@),
        forall|q: Pos| key_of(q@) == k ==> q == p,
{
    (p.0 as i128) * 0x1_0000_0000_0000_0000i128 + (p.1 as i128 + 0x8000_0000_0000_0000i128)
}

/// The distance from the origin to the nearest point that is on both
/// paths; `None` where they have no point in common.
pub fn closest(one: &Vec<Pos>, two: &Vec<Pos>) -> (r: Option<u64>)
    requires
        forall|i: int| 0 <= i < two@.len() ==> manhattan((0, 0), #[trigger] two@[i]@) <= u64::MAX,
    ensures
        match r {
            Some(d) => is_closest(points(one@), points(two@), d as nat),
            None => forall|p: (int, int)| !is_crossing(points(one@), points(two@), p),
        },
{
    broadcast use vstd::std_specs::hash::group_hash_axioms;

    let mut seen: HashSet<i128> = HashSet::new();
    let mut i: usize = 0;
    while i < one.len()
        invariant
            i <= one.len(),
            forall|k: i128|
                seen@.contains(k) <==> exists|j: int|
                    0 <= j < i && key_of(#[trigger] one@[j]@) == k,
        decreases one.len() - i,
    {
        let k = key(one[i]);
        seen.insert(k);
        i += 1;
    }
    let zero = Pos::origin();
    let mut best: Option<u64> = None;
    let mut i: usize = 0;
    while i < two.len()
        invariant
            i <= two.len(),
            zero@ == (0int, 0int),
            forall|i: int|
                0 <= i < two@.len() ==> manhattan((0, 0), #[trigger] two@[i]@) <= u64::MAX,
            forall|k: i128|
                seen@.contains(k) <==> exists|j: int|
                    0 <= j < one@.len() && key_of(#[trigger] one@[j]@) == k,
            match best {
                Some(d) => {
                    &&& exists|j: int|
                        0 <= j < i && points(one@).contains(#[trigger] two@[j]@) && manhattan(
                            (0, 0),
                            two@[j]@,
                        ) == d
                    &&& forall|j: int|
                        0 <= j < i && points(one@).contains(#[trigger] two@[j]@) ==> d
                            <= manhattan((0, 0), two@[j]@)
                },
                None => forall|j: int| 0 <= j < i ==> !points(one@).contains(#[trigger] two@[j]@),
            },
        decreases two.len() - i,
    {
        let q = two[i];
        let k = key(q);
        let found = seen.contains(&k);
        proof {
            if found {
                let j = choose|j: int| 0 <= j < one@.len() && key_of(#[trigger] one@[j]@) == k;
                assert(one@[j] == q);
                assert(points(one@)[j] == q@);
            }
            if points(one@).contains(q@) {
                let j = choose|j: int| 0 <= j < points(one@).len() && points(one@)[j] == q@;
                assert(key_of(one@[j]@) == k);
            }
            assert(found == points(one@).contains(q@));
        }
        if found {
            let d = zero.dist(&q);
            best = match best {
                Some(b) if b <= d => Some(b),
                _ => Some(d),
            };
        }
        i += 1;
    }
    proof {
        let a = points(one@);
        let b = points(two@);
        assert forall|p: (int, int)| is_crossing(a, b, p) implies exists|j: int|
            0 <= j < two@.len() && a.contains(#[trigger] two@[j]@) && two@[j]@ == p by {
            let j = choose|j: int| 0 <= j < b.len() && b[j] == p;
            assert(two@[j]@ == p);
        }
        match best {
            Some(d) => {
                let j = choose|j: int|
                    0 <= j < two@.len() && a.contains(#[trigger] two@[j]@) && manhattan(
                        (0, 0),
                        two@[j]@,
                    ) == d;
                assert(b[j] == two@[j]@);
                assert(is_crossing(a, b, two@[j]@));
            },
            None => {},
        }
    }
    best
}

/// Reads the wires of `input`: one to a line, each a list of motions
/// separated by commas. The first field that is no motion fails the
/// reading.
pub fn wires(input: &str) -> (r: Result<Vec<Vec<Motion>>, ParseMotionError>)
    ensures
        match r {
            Ok(found) => {
                &&& all_motions(input@)
                &&& found@.len() == cells(input@).len()
                &&& forall|line: int|
                    0 <= line < found@.len() ==> (#[trigger] found@[line])@ == wire(input@, line)
            },
            Err(e) => exists|line: int, col: int|
                is_first_bad(input@, line, col) && explains(e, #[trigger] cells(input@)[line][col]),
        },
{
    let lines = text::lines(input);
    let ghost all = cells(input@);
    let mut found: Vec<Vec<Motion>> = Vec::new();
    let mut line_no: usize = 0;
    while line_no < lines.len()
        invariant
            line_no <= lines.len(),
            text::views(lines@) == text::lines_of(input@),
            all == cells(input@),
            all.len() == lines@.len(),
            found@.len() == line_no,
            forall|line: int, col: int|
                0 <= line < line_no && 0 <= col < all[line].len() ==> is_motion(
                    #[trigger] all[line][col],
                ),
            forall|line: int|
                0 <= line < line_no ==> (#[trigger] found@[line])@ == motions_of(all[line]),
        decreases lines.len() - line_no,
    {
        let fields = text::split(lines[line_no], ',');
        let ghost row = all[line_no as int];
        assert(row == text::views(fields@)) by {
            assert(text::views(lines@)[line_no as int] == lines@[line_no as int]@);
        }
        let mut motions: Vec<Motion> = Vec::new();
        let mut col_no: usize = 0;
        while col_no < fields.len()
            invariant
                col_no <= fields.len(),
                line_no < all.len(),
                all == cells(input@),
                row == all[line_no as int],
                row == text::views(fields@),
                forall|line: int, col: int|
                    0 <= line < line_no && 0 <= col < all[line].len() ==> is_motion(
                        #[trigger] all[line][col],
                    ),
                forall|col: int| 0 <= col < col_no ==> is_motion(#[trigger] row[col]),
                motions@ == motions_of(row.take(col_no as int)),
            decreases fields.len() - col_no,
        {
            let field: &str = fields[col_no];
            assert(field@ == row[col_no as int]);
            match Motion::from_str(field) {
                Ok(m) => {
                    motions.push(m);
                    assert(motions_of(row.take(col_no + 1)) =~= motions_of(
                        row.take(col_no as int),
                    ).push(m));
                },
                Err(e) => {
                    assert(is_first_bad(input@, line_no as int, col_no as int));
                    assert(explains(e, cells(input@)[line_no as int][col_no as int]));
                    return Err(e);
                },
            }
            col_no += 1;
        }
        assert(row.take(col_no as int) =~= row);
        found.push(motions);
        line_no += 1;
    }
    Ok(found)
}

/// The distance from the origin to the nearest point at which the first
/// two wires of `input` cross.
pub fn calculate(input: &str) -> (r: Result<u64, WireError>)
    ensures
        crosses(input@, r),
{
    let found = match wires(input) {
        Ok(found) => found,
        Err(e) => {
            return Err(WireError::Parse(e));
        },
    };
    if found.len() < 2 {
        return Err(WireError::MissingWire);
    }
    let short = match (length(&found[0]), length(&found[1])) {
        (Some(a), Some(b)) => a <= i64::MAX as u64 && a <= usize::MAX as u64 && b
            <= i64::MAX as u64 && b <= usize::MAX as u64,
        _ => false,
    };
    if !short {
        return Err(WireError::TooLong);
    }
    let one = positions(&found[0]);
    let two = positions(&found[1]);
    proof {
        wire_stays_near(found@[1]@);
        assert forall|i: int| 0 <= i < two@.len() implies manhattan((0, 0), #[trigger] two@[i]@)
            <= u64::MAX by {
            assert(points(two@)[i] == two@[i]@);
        }
    }
    match closest(&one, &two) {
        Some(d) => Ok(d),
        None => Err(WireError::NoCrossing),
    }
}

impl ParseDirectionError {
    /// What the error says.
    pub open spec fn message(&self) -> Seq<char> {
        self.0@ + " is not a valid direction"@
    }

    /// The error in words.
    pub fn to_string(&self) -> (s: String)
        ensures
            s@ == self.message(),
    {
        let mut s = self.0.clone();
        s.append(" is not a valid direction");
        s
    }
}

impl ParseMotionError {
    /// What the error says.
    pub open spec fn message(&self) -> Seq<char> {
        "Motion parse failed on string \""@ + self.0@ + "\": "@ + match self.1 {
            MotionCause::Direction(e) => e.message(),
            MotionCause::Distance(e) => e.message(),
        }
    }

    /// The error in words.
    pub fn to_string(&self) -> (s: String)
        ensures
            s@ == self.message(),
    {
        let mut s = String::from_str("Motion parse failed on string \"");
        s.append(self.0.as_str());
        s.append("\": ");
        match &self.1 {
            MotionCause::Direction(e) => {
                s.append(e.to_string().as_str());
            },
            MotionCause::Distance(e) => {
                s.append(e.to_string().as_str());
            },
        }
        s
    }
}

impl WireError {
    /// What the error says.
    pub open spec fn message(&self) -> Seq<char> {
        match self {
            WireError::Parse(e) => e.message(),
            WireError::MissingWire => "No instruction streams"@,
            WireError::TooLong => "The wire is too long"@,
            WireError::NoCrossing => "no minimum"@,
        }
    }

    /// The error in words.
    pub fn to_string(&self) -> (s: String)
        ensures
            s@ == self.message(),
    {
        match self {
            WireError::Parse(e) => e.to_string(),
            WireError::MissingWire => String::from_str("No instruction streams"),
            WireError::TooLong => String::from_str("The wire is too long"),
            WireError::NoCrossing => String::from_str("no minimum"),
        }
    }
}

impl Challenge {
    /// The solver of the third puzzle.
    pub fn new() -> Self {
        Self {  }
    }

    /// Part one: the distance to the nearest crossing of the two wires.
    pub fn run_one(&self, input: Result<&str, &str>) -> (r: ChallengeResult)
        ensures
            self.solves("one"@, input, r),
    {
        match input {
            Err(e) => Err(input::read_error("3", "1", "1.txt", e)),
            Ok(s) => {
                let found = calculate(s);
                let r = match &found {
                    Ok(d) => Ok(text::decimal(*d)),
                    Err(e) => Err(challenge::Error::Failure(e.to_string())),
                };
                assert(crosses(s@, found));
                r
            },
        }
    }
}

impl challenge::Challenge for Challenge {
    open spec fn input_of(&self, part: Seq<char>) -> Option<(Seq<char>, Seq<char>)> {
        if part == "one"@ {
            Some(("3"@, "1.txt"@))
        } else {
            None
        }
    }

    open spec fn solves(&self, part: Seq<char>, input: Result<&str, &str>, r: ChallengeResult) -> bool {
        if part == "one"@ {
            match input {
                Ok(s) => exists|found: Result<u64, WireError>|
                    crosses(s@, found) && match found {
                        Ok(d) => r matches Ok(line) && line@ == text::decimal_of(d as nat),
                        Err(e) => r matches Err(challenge::Error::Failure(msg)) && msg@
                            == e.message(),
                    },
                Err(e) => r matches Err(challenge::Error::Failure(msg)) && msg@
                    == input::read_error_message("3"@, "1"@, "1.txt"@, e@),
            }
        } else {
            r matches Err(challenge::Error::MissingPart(msg)) && msg@ == "Part "@ + part
                + " is not implemented"@
        }
    }

    fn source(&self, part: &str) -> (r: Option<Source>) {
        if text::same(part, "one") {
            Some(Source { challenge: "3", part: "1.txt" })
        } else {
            None
        }
    }

    fn run(&mut self, part: &str, input: Result<&str, &str>) -> (r: ChallengeResult) {
        if text::same(part, "one") {
            self.run_one(input)
        } else {
            let mut msg = String::from_str("Part ");
            msg.append(part);
            msg.append(" is not implemented");
            Err(challenge::Error::MissingPart(msg))
        }
    }
}

} // verus!
