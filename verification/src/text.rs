//! Reading lines, fields and numbers out of text, and writing numbers back.
//!
//! Every function here is stated over the characters of a string, `s@`.

use vstd::prelude::*;
use vstd::string::StrSliceExecFns;
use vstd::string::StringExecFns;

verus! {

/// Index of the first `c` in `s`, or `s.len()` where `s` holds none.
pub open spec fn position_of(s: Seq<char>, c: char) -> int
    decreases s.len(),
{
    if s.len() == 0 || s[0] == c {
        0
    } else {
        1 + position_of(s.drop_first(), c)
    }
}

/// The pieces of `s` between occurrences of `sep`. There is always at least
/// one piece; two separators in a row enclose an empty piece.
pub open spec fn split_of(s: Seq<char>, sep: char) -> Seq<Seq<char>>
    decreases s.len(),
{
    let p = position_of(s, sep);
    if 0 <= p < s.len() {
        seq![s.take(p)] + split_of(s.skip(p + 1), sep)
    } else {
        seq![s]
    }
}

/// `line` without the carriage return that ends it, if one does.
pub open spec fn strip_cr(line: Seq<char>) -> Seq<char> {
    if line.len() > 0 && line.last() == '\r' {
        line.drop_last()
    } else {
        line
    }
}

/// The lines of `s`. A line ends at a line feed, or at a carriage return
/// directly followed by a line feed; the last line needs no line ending,
/// and an empty text has no lines.
pub open spec fn lines_of(s: Seq<char>) -> Seq<Seq<char>>
    decreases s.len(),
{
    let p = position_of(s, '\n');
    if s.len() == 0 {
        Seq::empty()
    } else if 0 <= p < s.len() {
        seq![strip_cr(s.take(p))] + lines_of(s.skip(p + 1))
    } else {
        seq![s]
    }
}

/// The fields of a text: `cells(text)[line][col]` is the field `col` of the
/// line `line`. The fields of a line are separated by commas; lines and
/// fields are counted from zero.
pub open spec fn cells(text: Seq<char>) -> Seq<Seq<Seq<char>>> {
    lines_of(text).map_values(|line: Seq<char>| split_of(line, ','))
}

/// Whether `text` has a field `col` on a line `line`.
pub open spec fn is_cell(text: Seq<char>, line: int, col: int) -> bool {
    0 <= line < cells(text).len() && 0 <= col < cells(text)[line].len()
}

/// Whether the place `(line, col)` comes before `(other_line, other_col)`
/// in reading order.
pub open spec fn precedes(line: int, col: int, other_line: int, other_col: int) -> bool {
    line < other_line || (line == other_line && col < other_col)
}

/// The characters of each of `pieces`.
pub open spec fn views(pieces: Seq<&str>) -> Seq<Seq<char>> {
    Seq::new(pieces.len(), |i: int| pieces[i]@)
}

/// `position_of` finds the first occurrence and nothing before it.
pub proof fn position_of_is_first(s: Seq<char>, c: char)
    ensures
        0 <= position_of(s, c) <= s.len(),
        forall|j: int| 0 <= j < position_of(s, c) ==> s[j] != c,
        position_of(s, c) < s.len() ==> s[position_of(s, c)] == c,
    decreases s.len(),
{
    if s.len() != 0 && s[0] != c {
        let rest = s.drop_first();
        position_of_is_first(rest, c);
        assert forall|j: int| 0 <= j < position_of(s, c) implies s[j] != c by {
            if j > 0 {
                assert(s[j] == rest[j - 1]);
            }
        }
    }
}

/// An index that holds `c` with no `c` before it is `position_of`; so is the
/// length where no index holds `c`.
pub proof fn position_of_unique(s: Seq<char>, c: char, k: int)
    requires
        0 <= k <= s.len(),
        forall|j: int| 0 <= j < k ==> s[j] != c,
        k < s.len() ==> s[k] == c,
    ensures
        position_of(s, c) == k,
{
    position_of_is_first(s, c);
}

/// The characters of `s`, in order.
pub fn to_chars(s: &str) -> (v: Vec<char>)
    ensures
        v@ == s@,
{
    let mut v: Vec<char> = Vec::new();
    for c in it: s.chars()
        invariant
            it.seq() == s@,
            v@ == it.seq().take(it.index() as int),
    {
        v.push(c);
    }
    v
}

/// The part of `s` from character `from` up to, not including, character `to`.
pub fn piece<'a>(s: &'a str, from: usize, to: usize) -> (p: &'a str)
    requires
        from <= to <= s@.len(),
    ensures
        p@ == s@.subrange(from as int, to as int),
{
    if s.is_ascii() {
        s.substring_ascii(from, to)
    } else {
        s.substring_char(from, to)
    }
}

/// Whether `a` and `b` hold the same characters.
pub fn same(a: &str, b: &str) -> (r: bool)
    ensures
        r == (a@ == b@),
{
    let x = to_chars(a);
    let y = to_chars(b);
    if x.len() != y.len() {
        return false;
    }
    let mut i: usize = 0;
    while i < x.len()
        invariant
            i <= x.len(),
            x.len() == y.len(),
            x@ == a@,
            y@ == b@,
            forall|j: int| 0 <= j < i ==> x@[j] == y@[j],
        decreases x.len() - i,
    {
        if x[i] != y[i] {
            return false;
        }
        i += 1;
    }
    assert(a@ =~= b@);
    true
}

/// Splits `s` at every `sep`, as `split_of` says.
pub fn split<'a>(s: &'a str, sep: char) -> (pieces: Vec<&'a str>)
    ensures
        views(pieces@) == split_of(s@, sep),
{
    let chars = to_chars(s);
    let n = chars.len();
    let mut pieces: Vec<&'a str> = Vec::new();
    let mut start: usize = 0;
    let mut i: usize = 0;
    proof {
        assert(s@.skip(0) =~= s@);
        assert(views(pieces@) + split_of(s@, sep) =~= split_of(s@, sep));
    }
    while i < n
        invariant
            start <= i <= n,
            n == chars.len(),
            chars@ == s@,
            forall|j: int| start <= j < i ==> chars@[j] != sep,
            views(pieces@) + split_of(s@.skip(start as int), sep) == split_of(s@, sep),
        decreases n - i,
    {
        if chars[i] == sep {
            let p = piece(s, start, i);
            proof {
                let rest = s@.skip(start as int);
                position_of_unique(rest, sep, i - start);
                assert(rest.take(i - start) =~= p@);
                assert(rest.skip(i - start + 1) =~= s@.skip(i + 1));
                assert(views(pieces@.push(p)) =~= views(pieces@) + seq![p@]);
            }
            pieces.push(p);
            start = i + 1;
        }
        i += 1;
    }
    let p = piece(s, start, n);
    proof {
        let rest = s@.skip(start as int);
        position_of_unique(rest, sep, n - start);
        assert(rest =~= p@);
        assert(views(pieces@.push(p)) =~= views(pieces@) + seq![p@]);
    }
    pieces.push(p);
    pieces
}

/// Splits `s` into its lines, as `lines_of` says.
pub fn lines<'a>(s: &'a str) -> (pieces: Vec<&'a str>)
    ensures
        views(pieces@) == lines_of(s@),
{
    let chars = to_chars(s);
    let n = chars.len();
    let mut pieces: Vec<&'a str> = Vec::new();
    let mut start: usize = 0;
    let mut i: usize = 0;
    proof {
        assert(s@.skip(0) =~= s@);
        assert(views(pieces@) + lines_of(s@) =~= lines_of(s@));
    }
    while i < n
        invariant
            start <= i <= n,
            n == chars.len(),
            chars@ == s@,
            forall|j: int| start <= j < i ==> chars@[j] != '\n',
            views(pieces@) + lines_of(s@.skip(start as int)) == lines_of(s@),
        decreases n - i,
    {
        if chars[i] == '\n' {
            let end = if start < i && chars[i - 1] == '\r' {
                i - 1
            } else {
                i
            };
            let p = piece(s, start, end);
            proof {
                let rest = s@.skip(start as int);
                position_of_unique(rest, '\n', i - start);
                assert(strip_cr(rest.take(i - start)) =~= p@);
                assert(rest.skip(i - start + 1) =~= s@.skip(i + 1));
                assert(views(pieces@.push(p)) =~= views(pieces@) + seq![p@]);
            }
            pieces.push(p);
            start = i + 1;
        }
        i += 1;
    }
    if start < n {
        let p = piece(s, start, n);
        proof {
            let rest = s@.skip(start as int);
            position_of_unique(rest, '\n', n - start);
            assert(rest =~= p@);
            assert(views(pieces@.push(p)) =~= views(pieces@) + seq![p@]);
        }
        pieces.push(p);
    }
    pieces
}

/// Why a piece of text is no number.
#[derive(Debug, Clone, Copy, PartialEq, Eq, Structural)]
pub enum NumberError {
    /// The text is empty.
    Empty,
    /// The text is a lone sign, or a character of it is no digit.
    InvalidDigit,
    /// The digits write a number above the largest that is asked for.
    TooLarge,
}

impl NumberError {
    /// What the error says.
    pub open spec fn message(self) -> Seq<char> {
        match self {
            NumberError::Empty => "cannot parse integer from empty string"@,
            NumberError::InvalidDigit => "invalid digit found in string"@,
            NumberError::TooLarge => "number too large to fit in target type"@,
        }
    }

    /// The error in words.
    pub fn to_string(&self) -> (s: String)
        ensures
            s@ == self.message(),
    {
        match self {
            NumberError::Empty => String::from_str("cannot parse integer from empty string"),
            NumberError::InvalidDigit => String::from_str("invalid digit found in string"),
            NumberError::TooLarge => String::from_str("number too large to fit in target type"),
        }
    }
}

/// Whether `c` is one of the ten decimal digits.
pub open spec fn is_digit(c: char) -> bool {
    '0' <= c <= '9'
}

/// The digit that stands for `d`, for `d` below ten.
pub open spec fn digit_char(d: nat) -> char {
    (d + '0' as nat) as char
}

/// What the digits `s` write in base ten, the most significant first.
pub open spec fn digits_value(s: Seq<char>) -> nat
    decreases s.len(),
{
    if s.len() == 0 {
        0
    } else {
        10 * digits_value(s.drop_last()) + (s.last() as nat - '0' as nat) as nat
    }
}

/// `s` without the `+` that it starts with, if it does.
pub open spec fn strip_plus(s: Seq<char>) -> Seq<char> {
    if s.len() > 0 && s[0] == '+' {
        s.drop_first()
    } else {
        s
    }
}

/// How many decimal digits `s` starts with.
pub open spec fn leading_digits(s: Seq<char>) -> nat
    decreases s.len(),
{
    if s.len() == 0 || !is_digit(s[0]) {
        0
    } else {
        1 + leading_digits(s.drop_first())
    }
}

/// The number no larger than `max` that `s` writes: an optional `+`, then one
/// or more decimal digits and nothing else. Where `s` writes none, the
/// error is the first thing wrong with it from the left: a digit with which
/// the number becomes too large, or a character that is no digit.
pub open spec fn number_of(s: Seq<char>, max: nat) -> Result<nat, NumberError> {
    let body = strip_plus(s);
    let digits = body.take(leading_digits(body) as int);
    if s.len() == 0 {
        Err(NumberError::Empty)
    } else if body.len() == 0 {
        Err(NumberError::InvalidDigit)
    } else if digits_value(digits) > max {
        Err(NumberError::TooLarge)
    } else if digits.len() < body.len() {
        Err(NumberError::InvalidDigit)
    } else {
        Ok(digits_value(body))
    }
}

/// `leading_digits` counts digits only, and stops at the first character that
/// is none.
pub proof fn leading_digits_are_digits(s: Seq<char>)
    ensures
        leading_digits(s) <= s.len(),
        forall|j: int| 0 <= j < leading_digits(s) ==> is_digit(#[trigger] s[j]),
        leading_digits(s) < s.len() ==> !is_digit(s[leading_digits(s) as int]),
    decreases s.len(),
{
    if s.len() != 0 && is_digit(s[0]) {
        let rest = s.drop_first();
        leading_digits_are_digits(rest);
        assert forall|j: int| 0 <= j < leading_digits(s) implies is_digit(#[trigger] s[j]) by {
            if j > 0 {
                assert(s[j] == rest[j - 1]);
            }
        }
        assert(leading_digits(s) < s.len() ==> s[leading_digits(s) as int] == rest[leading_digits(
            rest,
        ) as int]);
    }
}

/// More digits write no smaller a number.
pub proof fn digits_value_grows(s: Seq<char>, a: int, b: int)
    requires
        0 <= a <= b <= s.len(),
        forall|j: int| 0 <= j < b ==> is_digit(#[trigger] s[j]),
    ensures
        digits_value(s.take(a)) <= digits_value(s.take(b)),
    decreases b - a,
{
    if a < b {
        digits_value_grows(s, a, b - 1);
        assert(s.take(b).drop_last() =~= s.take(b - 1));
    }
}

/// The decimal digits of `n`, the most significant first and without
/// leading zeros; `0` is written `0`.
pub open spec fn decimal_of(n: nat) -> Seq<char>
    decreases n,
{
    if n < 10 {
        seq![digit_char(n)]
    } else {
        decimal_of(n / 10).push(digit_char(n % 10))
    }
}

/// Reads `s` as a number no larger than `max`.
fn parse_bounded(s: &str, max: u64) -> (r: Result<u64, NumberError>)
    ensures
        match r {
            Ok(n) => n <= max && number_of(s@, max as nat) == Ok::<nat, NumberError>(n as nat),
            Err(e) => number_of(s@, max as nat) == Err::<nat, NumberError>(e),
        },
{
    let chars = to_chars(s);
    let n = chars.len();
    if n == 0 {
        return Err(NumberError::Empty);
    }
    let first: usize = if chars[0] == '+' {
        1
    } else {
        0
    };
    let ghost body = strip_plus(s@);
    assert(body =~= s@.skip(first as int));
    if first == n {
        return Err(NumberError::InvalidDigit);
    }
    let mut value: u64 = 0;
    let mut i: usize = first;
    proof {
        leading_digits_are_digits(body);
    }
    while i < n
        invariant
            first <= i <= n,
            first < n,
            n == chars.len(),
            chars@ == s@,
            body == strip_plus(s@),
            body == s@.skip(first as int),
            leading_digits(body) <= body.len(),
            forall|j: int| 0 <= j < leading_digits(body) ==> is_digit(#[trigger] body[j]),
            leading_digits(body) < body.len() ==> !is_digit(body[leading_digits(body) as int]),
            i - first <= leading_digits(body),
            value == digits_value(body.take(i - first)),
            value <= max,
        decreases n - i,
    {
        let c = chars[i];
        assert(c == body[i - first]);
        if c < '0' || c > '9' {
            assert(leading_digits(body) == i - first);
            return Err(NumberError::InvalidDigit);
        }
        let d = (c as u64) - ('0' as u64);
        proof {
            assert(is_digit(body[i - first]));
            assert(i - first < leading_digits(body));
            assert(body.take(i - first + 1).drop_last() =~= body.take(i - first));
        }
        if d > max || value > (max - d) / 10 {
            proof {
                digits_value_grows(body, i - first + 1, leading_digits(body) as int);
            }
            return Err(NumberError::TooLarge);
        }
        value = value * 10 + d;
        i += 1;
    }
    assert(body.take(n - first) =~= body);
    Ok(value)
}

/// Reads `s` as a `u64`.
pub fn parse_u64(s: &str) -> (r: Result<u64, NumberError>)
    ensures
        match r {
            Ok(n) => number_of(s@, u64::MAX as nat) == Ok::<nat, NumberError>(n as nat),
            Err(e) => number_of(s@, u64::MAX as nat) == Err::<nat, NumberError>(e),
        },
{
    parse_bounded(s, u64::MAX)
}

/// Reads `s` as a `usize`.
pub fn parse_usize(s: &str) -> (r: Result<usize, NumberError>)
    ensures
        match r {
            Ok(n) => number_of(s@, usize::MAX as nat) == Ok::<nat, NumberError>(n as nat),
            Err(e) => number_of(s@, usize::MAX as nat) == Err::<nat, NumberError>(e),
        },
{
    match parse_bounded(s, usize::MAX as u64) {
        Ok(n) => Ok(n as usize),
        Err(e) => Err(e),
    }
}

/// The digit `d` as text.
fn digit_str(d: u64) -> (s: &'static str)
    requires
        d < 10,
    ensures
        s@ == seq![digit_char(d as nat)],
{
    proof {
        reveal_strlit("0");
        reveal_strlit("1");
        reveal_strlit("2");
        reveal_strlit("3");
        reveal_strlit("4");
        reveal_strlit("5");
        reveal_strlit("6");
        reveal_strlit("7");
        reveal_strlit("8");
        reveal_strlit("9");
    }
    let s = if d == 0 {
        "0"
    } else if d == 1 {
        "1"
    } else if d == 2 {
        "2"
    } else if d == 3 {
        "3"
    } else if d == 4 {
        "4"
    } else if d == 5 {
        "5"
    } else if d == 6 {
        "6"
    } else if d == 7 {
        "7"
    } else if d == 8 {
        "8"
    } else {
        "9"
    };
    assert(s@ =~= seq![digit_char(d as nat)]);
    s
}

/// Writes `n` in base ten.
pub fn decimal(n: u64) -> (s: String)
    ensures
        s@ == decimal_of(n as nat),
    decreases n,
{
    if n < 10 {
        String::from_str(digit_str(n))
    } else {
        let mut s = decimal(n / 10);
        s.append(digit_str(n % 10));
        assert(s@ =~= decimal_of(n as nat));
        s
    }
}

/// What `decimal_of` writes is one digit or more, nothing but digits, and
/// worth the number that was written.
pub proof fn decimal_is_digits(n: nat)
    ensures
        decimal_of(n).len() > 0,
        forall|i: int| 0 <= i < decimal_of(n).len() ==> is_digit(#[trigger] decimal_of(n)[i]),
        digits_value(decimal_of(n)) == n,
    decreases n,
{
    if n < 10 {
        assert(digits_value(decimal_of(n).drop_last()) == 0);
    } else {
        decimal_is_digits(n / 10);
        assert(decimal_of(n).drop_last() =~= decimal_of(n / 10));
    }
}

/// A number that was written reads back as itself.
pub proof fn written_number_reads_back(n: nat, max: nat)
    requires
        n <= max,
    ensures
        number_of(decimal_of(n), max) == Ok::<nat, NumberError>(n),
{
    let s = decimal_of(n);
    decimal_is_digits(n);
    leading_digits_are_digits(s);
    assert(is_digit(s[0]));
    assert(s.take(s.len() as int) =~= s);
}

} // verus!
