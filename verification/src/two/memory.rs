//! The machine's memory, and the loading of a program text into it.

use vstd::prelude::*;
use vstd::slice::slice_subrange;
use vstd::string::StringExecFns;

use crate::text;
use crate::text::{cells, is_cell, precedes};

verus! {

/// The machine's memory: cell `i` is `self.0[i]`. Loading fixes the length;
/// no operation of the machine changes it.
#[derive(Debug, PartialEq, Eq)]
pub struct Registers(pub Vec<usize>);

impl View for Registers {
    type V = Seq<usize>;

    open spec fn view(&self) -> Seq<usize> {
        self.0@
    }
}

/// An access to memory that lies outside of it.
#[derive(Debug, Clone, Copy, PartialEq, Eq, Structural)]
pub enum RegisterErr {
    /// A write to this address.
    Insert(usize),
    /// A read of this address.
    Missing(usize),
    /// A read of the addresses from the first to the second, both included.
    MissingRange(usize, usize),
}

/// A field of the program text that is no number, with its place: lines and
/// fields are counted from zero.
#[derive(Debug, PartialEq, Eq)]
pub struct ProgramParseError {
    /// The line on which the field stands.
    pub line_no: usize,
    /// The place of the field among the fields of its line.
    pub col_no: usize,
    /// The field itself.
    pub bad_val: String,
}

/// Whether `field` writes a number that fits a memory cell.
pub open spec fn is_value(field: Seq<char>) -> bool {
    text::number_of(field, usize::MAX as nat) is Ok
}

/// The number that `field` writes, where `is_value(field)`.
pub open spec fn value_of(field: Seq<char>) -> usize {
    match text::number_of(field, usize::MAX as nat) {
        Ok(n) => n as usize,
        Err(_) => 0,
    }
}

/// The numbers that `fields` write.
pub open spec fn values_of(fields: Seq<Seq<char>>) -> Seq<usize> {
    fields.map_values(|field: Seq<char>| value_of(field))
}

/// The memory that `text` loads to, where all its fields are values: the
/// numbers of all lines, one line after the other.
pub open spec fn memory_of(text: Seq<char>) -> Seq<usize> {
    cells(text).map_values(|fields: Seq<Seq<char>>| values_of(fields)).flatten()
}

/// Whether `text` can be loaded: all its fields are values.
pub open spec fn loads(text: Seq<char>) -> bool {
    forall|line: int, col: int|
        is_cell(text, line, col) ==> is_value(#[trigger] cells(text)[line][col])
}

/// Whether the field `col` of line `line` is the first of `text`, in
/// reading order, that is no value.
pub open spec fn is_first_bad(text: Seq<char>, line: int, col: int) -> bool {
    &&& is_cell(text, line, col)
    &&& !is_value(cells(text)[line][col])
    &&& forall|l: int, c: int|
        is_cell(text, l, c) && precedes(l, c, line, col) ==> is_value(
            #[trigger] cells(text)[l][c],
        )
}

/// Whether the addresses from `start` to `end`, both included, can be read
/// from `mem` at once.
pub open spec fn holds_range(mem: Seq<usize>, start: usize, end: usize) -> bool {
    start <= end + 1 <= mem.len()
}

impl Registers {
    /// Loads a program text. Every line is a list of numbers separated by
    /// commas; the numbers of all lines go to memory in the order in which
    /// they stand. The first field that is no number fails the load.
    pub fn from_program(program: &str) -> (r: Result<Self, ProgramParseError>)
        ensures
            match r {
                Ok(registers) => loads(program@) && registers@ == memory_of(program@),
                Err(e) => is_first_bad(program@, e.line_no as int, e.col_no as int) && e.bad_val@
                    == cells(program@)[e.line_no as int][e.col_no as int],
            },
    {
        let lines = text::lines(program);
        let ghost all = cells(program@);
        let ghost loaded = all.map_values(|fields: Seq<Seq<char>>| values_of(fields));
        let mut regs: Vec<usize> = Vec::new();
        let mut line_no: usize = 0;
        assert(all.len() == lines@.len());
        while line_no < lines.len()
            invariant
                line_no <= lines.len(),
                text::views(lines@) == text::lines_of(program@),
                all == cells(program@),
                all.len() == lines@.len(),
                loaded == all.map_values(|fields: Seq<Seq<char>>| values_of(fields)),
                forall|line: int, col: int|
                    0 <= line < line_no && 0 <= col < all[line].len() ==> is_value(
                        #[trigger] all[line][col],
                    ),
                regs@ == loaded.take(line_no as int).flatten(),
            decreases lines.len() - line_no,
        {
            let fields = text::split(lines[line_no], ',');
            let ghost row = all[line_no as int];
            assert(row == text::views(fields@)) by {
                assert(text::views(lines@)[line_no as int] == lines@[line_no as int]@);
            }
            let mut nums: Vec<usize> = Vec::new();
            let mut col_no: usize = 0;
            while col_no < fields.len()
                invariant
                    col_no <= fields.len(),
                    line_no < all.len(),
                    all == cells(program@),
                    row == all[line_no as int],
                    row == text::views(fields@),
                    forall|line: int, col: int|
                        0 <= line < line_no && 0 <= col < all[line].len() ==> is_value(
                            #[trigger] all[line][col],
                        ),
                    forall|col: int| 0 <= col < col_no ==> is_value(#[trigger] row[col]),
                    nums@ == values_of(row.take(col_no as int)),
                decreases fields.len() - col_no,
            {
                let field: &str = fields[col_no];
                assert(field@ == row[col_no as int]);
                match text::parse_usize(field) {
                    Ok(n) => {
                        nums.push(n);
                        assert(values_of(row.take(col_no + 1)) =~= values_of(
                            row.take(col_no as int),
                        ).push(n));
                    },
                    Err(_) => {
                        return Err(
                            ProgramParseError { line_no, col_no, bad_val: field.to_owned() },
                        );
                    },
                }
                col_no += 1;
            }
            proof {
                assert(row.take(col_no as int) =~= row);
                assert(loaded.take(line_no + 1) =~= loaded.take(line_no as int).push(
                    values_of(row),
                ));
                loaded.take(line_no as int).lemma_flatten_push(values_of(row));
            }
            regs.append(&mut nums);
            line_no += 1;
        }
        assert(loaded.take(line_no as int) =~= loaded);
        Ok(Registers(regs))
    }

    /// Reads the cell at address `num`.
    pub fn at(&self, num: usize) -> (r: Result<&usize, RegisterErr>)
        ensures
            num < self@.len() ==> r == Ok::<&usize, RegisterErr>(&self@[num as int]),
            num >= self@.len() ==> r == Err::<&usize, RegisterErr>(RegisterErr::Missing(num)),
    {
        if num < self.0.len() {
            Ok(&self.0[num])
        } else {
            Err(RegisterErr::Missing(num))
        }
    }

    /// Writes `val` to the cell at address `num`. Memory never grows: a
    /// write outside of it fails and changes nothing.
    pub fn set(&mut self, num: usize, val: usize) -> (r: Result<(), RegisterErr>)
        ensures
            num < old(self)@.len() ==> r == Ok::<(), RegisterErr>(()) && final(self)@ == old(
                self,
            )@.update(num as int, val),
            num >= old(self)@.len() ==> r == Err::<(), RegisterErr>(RegisterErr::Insert(num))
                && final(self)@ == old(self)@,
    {
        if num < self.0.len() {
            self.0[num] = val;
            Ok(())
        } else {
            Err(RegisterErr::Insert(num))
        }
    }

    /// Reads the cells at the addresses from `start` to `end`, both
    /// included, at once. It fails if any of them lies outside of memory. A
    /// `start` one above `end` asks for no cell and succeeds where `start`
    /// is no larger than the length; a `start` further above `end` fails.
    pub fn range(&self, start: usize, end: usize) -> (r: Result<&[usize], RegisterErr>)
        ensures
            match r {
                Ok(found) => holds_range(self@, start, end) && found@ == self@.subrange(
                    start as int,
                    end + 1,
                ),
                Err(e) => !holds_range(self@, start, end) && e == RegisterErr::MissingRange(
                    start,
                    end,
                ),
            },
    {
        if end < self.0.len() && start <= end + 1 {
            Ok(slice_subrange(self.0.as_slice(), start, end + 1))
        } else {
            Err(RegisterErr::MissingRange(start, end))
        }
    }
}

impl RegisterErr {
    /// What the error says.
    pub open spec fn message(self) -> Seq<char> {
        match self {
            RegisterErr::Insert(p) => "Failed to insert at position "@ + text::decimal_of(
                p as nat,
            ),
            RegisterErr::Missing(p) => "No value at position "@ + text::decimal_of(p as nat),
            RegisterErr::MissingRange(s, e) => "Value in range ["@ + text::decimal_of(s as nat)
                + ", "@ + text::decimal_of(e as nat) + "] is missing"@,
        }
    }

    /// The error in words.
    pub fn to_string(&self) -> (s: String)
        ensures
            s@ == self.message(),
    {
        match *self {
            RegisterErr::Insert(p) => {
                let mut s = String::from_str("Failed to insert at position ");
                s.append(text::decimal(p as u64).as_str());
                s
            },
            RegisterErr::Missing(p) => {
                let mut s = String::from_str("No value at position ");
                s.append(text::decimal(p as u64).as_str());
                s
            },
            RegisterErr::MissingRange(start, end) => {
                let mut s = String::from_str("Value in range [");
                s.append(text::decimal(start as u64).as_str());
                s.append(", ");
                s.append(text::decimal(end as u64).as_str());
                s.append("] is missing");
                s
            },
        }
    }
}

impl ProgramParseError {
    /// What the error says.
    pub open spec fn message(&self) -> Seq<char> {
        "Parsing failure at "@ + text::decimal_of(self.line_no as nat) + ","@ + text::decimal_of(
            self.col_no as nat,
        ) + ": "@ + self.bad_val@
    }

    /// The error in words.
    pub fn to_string(&self) -> (s: String)
        ensures
            s@ == self.message(),
    {
        let mut s = String::from_str("Parsing failure at ");
        s.append(text::decimal(self.line_no as u64).as_str());
        s.append(",");
        s.append(text::decimal(self.col_no as u64).as_str());
        s.append(": ");
        s.append(self.bad_val.as_str());
        s
    }
}

} // verus!
