use crate::logic::grid::{Grid, IVec2};
use crate::logic::text::push_char;
use vstd::prelude::*;
use vstd::string::*;

verus! {

/// The value of a string of decimal digits.
pub open spec fn digits_value(s: Seq<char>) -> int
    decreases s.len(),
{
    if s.len() == 0 {
        0
    } else {
        digits_value(s.drop_last()) * 10 + (s.last() as int - '0' as int)
    }
}

pub open spec fn all_digits(s: Seq<char>) -> bool {
    forall|i: int| 0 <= i < s.len() ==> '0' <= #[trigger] s[i] <= '9'
}

/// What `i32::from_str` reads: an optional `+` or `-` sign followed by one
/// or more decimal digits, whose value fits in `i32`.
pub open spec fn parsed_i32(s: Seq<char>) -> Option<i32> {
    let negative = s.len() > 0 && s[0] == '-';
    let body = if s.len() > 0 && (s[0] == '-' || s[0] == '+') { s.skip(1) } else { s };
    let value = if negative { -digits_value(body) } else { digits_value(body) };
    if body.len() == 0 || !all_digits(body) || value < i32::MIN || value > i32::MAX {
        None
    } else {
        Some(value as i32)
    }
}

/// Relies on `i32::from_str`, documented to accept an optional sign followed
/// by decimal digits and to refuse anything else or a value out of range.
#[verifier::external_body]
fn parse_i32(s: &str) -> (r: Option<i32>)
    ensures
        r == parsed_i32(s@),
{
    s.parse::<i32>().ok()
}

/// Why a metadata line does not give the root.
#[derive(Debug, Copy, Clone, PartialEq, Eq, Structural)]
pub enum MetadataError {
    /// There is no line.
    EmptyGrid,
    /// A comma-separated entry is not one `name=value` pair: it holds this
    /// many `=` signs.
    NotAPair(usize),
    /// A value is not an `i32`.
    BadNumber,
    MissingRootRow,
    MissingRootColumn,
}

/// The entries of a line: spaces dropped, split at commas, a last empty
/// entry left out.
pub open spec fn entries(s: Seq<char>) -> Seq<Seq<char>> {
    let (done, current) = split_fold(s);
    if current.len() == 0 {
        done
    } else {
        done.push(current)
    }
}

/// Splitting `s` at commas, spaces dropped: the finished entries and the one
/// being read.
pub open spec fn split_fold(s: Seq<char>) -> (Seq<Seq<char>>, Seq<char>)
    decreases s.len(),
{
    if s.len() == 0 {
        (seq![], seq![])
    } else {
        let (done, current) = split_fold(s.drop_last());
        let c = s.last();
        if c == ',' {
            (done.push(current), seq![])
        } else if c == ' ' {
            (done, current)
        } else {
            (done, current.push(c))
        }
    }
}

/// Number of `=` in an entry.
pub open spec fn equals_count(e: Seq<char>) -> int
    decreases e.len(),
{
    if e.len() == 0 {
        0
    } else {
        equals_count(e.drop_last()) + (if e.last() == '=' { 1int } else { 0 })
    }
}

/// The position of the first `=` at or after `j`, or the length.
pub open spec fn first_equals(e: Seq<char>, j: int) -> int
    decreases e.len() - j,
{
    if j < 0 || j >= e.len() {
        e.len() as int
    } else if e[j] == '=' {
        j
    } else {
        first_equals(e, j + 1)
    }
}

/// The position of the first `=` of an entry.
pub open spec fn equals_at(e: Seq<char>) -> int {
    first_equals(e, 0)
}

/// The root row and column that the entries `0..n` set, or the first error.
pub open spec fn read_entries(es: Seq<Seq<char>>, n: int) -> Result<(Option<i32>, Option<i32>), MetadataError>
    decreases n,
{
    if n <= 0 {
        Ok((None, None))
    } else {
        match read_entries(es, n - 1) {
            Err(e) => Err(e),
            Ok((row, column)) => {
                let e = es[n - 1];
                if equals_count(e) != 1 {
                    Err(MetadataError::NotAPair(equals_count(e) as usize))
                } else {
                    let name = e.take(equals_at(e));
                    let value = e.skip(equals_at(e) + 1);
                    if name == "root_row"@ {
                        match parsed_i32(value) {
                            Some(v) => Ok((Some(v), column)),
                            None => Err(MetadataError::BadNumber),
                        }
                    } else if name == "root_column"@ {
                        match parsed_i32(value) {
                            Some(v) => Ok((row, Some(v))),
                            None => Err(MetadataError::BadNumber),
                        }
                    } else {
                        Ok((row, column))
                    }
                }
            },
        }
    }
}

/// What a metadata line says of the root.
pub open spec fn parse_metadata(line: Option<Seq<char>>) -> Result<IVec2, MetadataError> {
    match line {
        None => Err(MetadataError::EmptyGrid),
        Some(s) => {
            let es = entries(s);
            match read_entries(es, es.len() as int) {
                Err(e) => Err(e),
                Ok((None, _)) => Err(MetadataError::MissingRootRow),
                Ok((Some(_), None)) => Err(MetadataError::MissingRootColumn),
                Ok((Some(row), Some(column))) => Ok(IVec2 { x: column, y: row }),
            }
        },
    }
}

/// Number of `=` in an entry.
fn count_equals(e: &Vec<char>) -> (r: usize)
    ensures
        r == equals_count(e@),
{
    let mut count: usize = 0;
    let mut j: usize = 0;
    while j < e.len()
        invariant
            j <= e@.len(),
            count == equals_count(e@.take(j as int)),
            count <= j,
        decreases e@.len() - j,
    {
        assert(e@.take(j + 1).drop_last() =~= e@.take(j as int));
        if e[j] == '=' {
            count += 1;
        }
        j += 1;
    }
    assert(e@.take(e@.len() as int) =~= e@);
    count
}

/// Position of the first `=` of an entry.
fn find_equals(e: &Vec<char>) -> (r: usize)
    ensures
        r == equals_at(e@),
        r <= e@.len(),
        r == e@.len() ==> equals_count(e@) == 0,
{
    let mut j: usize = 0;
    while j < e.len() && e[j] != '='
        invariant
            j <= e@.len(),
            first_equals(e@, 0) == first_equals(e@, j as int),
            forall|i: int| 0 <= i < j ==> e@[i] != '=',
        decreases e@.len() - j,
    {
        j += 1;
    }
    if j == e.len() {
        proof {
            lemma_no_equals(e@);
        }
    }
    j
}

proof fn lemma_no_equals(e: Seq<char>)
    requires
        forall|i: int| 0 <= i < e.len() ==> e[i] != '=',
    ensures
        equals_count(e) == 0,
    decreases e.len(),
{
    if e.len() > 0 {
        assert forall|i: int| 0 <= i < e.drop_last().len() implies e.drop_last()[i] != '=' by {
            assert(e.drop_last()[i] == e[i]);
        }
        lemma_no_equals(e.drop_last());
    }
}

/// Whether `v[from..to]` is the literal.
fn chars_equal(v: &Vec<char>, from: usize, to: usize, literal: &str) -> (r: bool)
    requires
        from <= to <= v@.len(),
    ensures
        r == (v@.subrange(from as int, to as int) == literal@),
{
    let n = literal.unicode_len();
    if to - from != n {
        return false;
    }
    let mut k: usize = 0;
    while k < n
        invariant
            from <= to <= v@.len(),
            to - from == n,
            n == literal@.len(),
            k <= n,
            forall|i: int| 0 <= i < k ==> v@[from + i] == literal@[i],
        decreases n - k,
    {
        if v[from + k] != literal.get_char(k) {
            assert(v@.subrange(from as int, to as int)[k as int] != literal@[k as int]);
            return false;
        }
        k += 1;
    }
    assert(v@.subrange(from as int, to as int) =~= literal@);
    true
}

/// The characters `v[from..to]` as a string.
fn chars_to_string(v: &Vec<char>, from: usize, to: usize) -> (r: String)
    requires
        from <= to <= v@.len(),
    ensures
        r@ == v@.subrange(from as int, to as int),
{
    let mut s = String::new();
    let mut k: usize = from;
    while k < to
        invariant
            from <= k <= to <= v@.len(),
            s@ == v@.subrange(from as int, k as int),
        decreases to - k,
    {
        push_char(&mut s, v[k]);
        k += 1;
        assert(s@ =~= v@.subrange(from as int, k as int));
    }
    s
}

/// The entries of a line: spaces dropped, split at commas, a last empty
/// entry left out.
fn split_entries(line: &str) -> (r: Vec<Vec<char>>)
    ensures
        r@.len() == entries(line@).len(),
        forall|i: int| 0 <= i < r@.len() ==> (#[trigger] r@[i])@ == entries(line@)[i],
{
    let n = line.unicode_len();
    let mut done: Vec<Vec<char>> = Vec::new();
    let mut current: Vec<char> = Vec::new();
    let mut i: usize = 0;
    assert(line@.take(0) =~= Seq::<char>::empty());
    while i < n
        invariant
            n == line@.len(),
            i <= n,
            split_fold(line@.take(i as int)).0.len() == done@.len(),
            forall|k: int| 0 <= k < done@.len() ==> (#[trigger] done@[k])@ == split_fold(line@.take(i as int)).0[k],
            split_fold(line@.take(i as int)).1 == current@,
        decreases n - i,
    {
        let c = line.get_char(i);
        assert(line@.take(i + 1).drop_last() =~= line@.take(i as int));
        if c == ',' {
            done.push(current);
            current = Vec::new();
        } else if c != ' ' {
            current.push(c);
        }
        i += 1;
    }
    assert(line@.take(n as int) =~= line@);
    if current.len() > 0 {
        done.push(current);
    }
    done
}

impl Grid {
    /// Reads the root from a metadata line such as `root_row=3,root_column=5`:
    /// spaces are ignored, a trailing comma is allowed, unknown names are
    /// skipped and a later entry overrides an earlier one.
    pub fn parse_metadata_line(first_line: Option<&str>) -> (r: Result<IVec2, MetadataError>)
        ensures
            r == parse_metadata(match first_line {
                Some(s) => Some(s@),
                None => None,
            }),
    {
        let line = match first_line {
            Some(line) => line,
            None => {
                return Err(MetadataError::EmptyGrid);
            },
        };
        let es = split_entries(line);
        let ghost spec_entries = entries(line@);
        let mut root_row: Option<i32> = None;
        let mut root_column: Option<i32> = None;
        let mut k: usize = 0;
        proof {
            reveal_strlit("root_row");
            reveal_strlit("root_column");
        }
        while k < es.len()
            invariant
                first_line == Some(line),
                spec_entries == entries(line@),
                es@.len() == spec_entries.len(),
                forall|i: int| 0 <= i < es@.len() ==> (#[trigger] es@[i])@ == spec_entries[i],
                k <= es@.len(),
                read_entries(spec_entries, k as int) == Ok::<(Option<i32>, Option<i32>), MetadataError>((root_row, root_column)),
            decreases es@.len() - k,
        {
            let entry = &es[k];
            assert(entry@ == spec_entries[k as int]);
            let count = count_equals(entry);
            if count != 1 {
                proof {
                    assert(read_entries(spec_entries, k + 1) == Err::<(Option<i32>, Option<i32>), MetadataError>(MetadataError::NotAPair(count)));
                    lemma_error_sticks(spec_entries, k + 1, es@.len() as int);
                }
                return Err(MetadataError::NotAPair(count));
            }
            let at = find_equals(entry);
            if chars_equal(entry, 0, at, "root_row") {
                assert(entry@.take(at as int) == entry@.subrange(0, at as int));
                let value = chars_to_string(entry, at + 1, entry.len());
                assert(entry@.skip(at + 1) =~= entry@.subrange(at + 1, entry@.len() as int));
                match parse_i32(value.as_str()) {
                    Some(v) => {
                        root_row = Some(v);
                    },
                    None => {
                        proof {
                            lemma_error_sticks(spec_entries, k + 1, es@.len() as int);
                        }
                        return Err(MetadataError::BadNumber);
                    },
                }
            } else if chars_equal(entry, 0, at, "root_column") {
                assert(entry@.take(at as int) == entry@.subrange(0, at as int));
                let value = chars_to_string(entry, at + 1, entry.len());
                assert(entry@.skip(at + 1) =~= entry@.subrange(at + 1, entry@.len() as int));
                match parse_i32(value.as_str()) {
                    Some(v) => {
                        root_column = Some(v);
                    },
                    None => {
                        proof {
                            lemma_error_sticks(spec_entries, k + 1, es@.len() as int);
                        }
                        return Err(MetadataError::BadNumber);
                    },
                }
            } else {
                assert(entry@.take(at as int) == entry@.subrange(0, at as int));
            }
            k += 1;
        }
        match (root_row, root_column) {
            (None, _) => Err(MetadataError::MissingRootRow),
            (Some(_), None) => Err(MetadataError::MissingRootColumn),
            (Some(row), Some(column)) => Ok(IVec2 { x: column, y: row }),
        }
    }
}

/// Once an entry fails, reading more entries keeps that error.
proof fn lemma_error_sticks(es: Seq<Seq<char>>, k: int, n: int)
    requires
        read_entries(es, k) is Err,
        k <= n,
    ensures
        read_entries(es, n) == read_entries(es, k),
    decreases n - k,
{
    if k < n {
        lemma_error_sticks(es, k, n - 1);
    }
}

} // verus!
