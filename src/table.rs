//! Reading task definitions from delimited text: separator detection, header
//! columns and the cells of each row.
use vstd::prelude::*;
use crate::error::Error;

verus! {

/// What `str::lines` yields for a text: its lines, without line terminators.
pub uninterp spec fn lines_of(s: Seq<char>) -> Seq<Seq<char>>;

/// What `str::to_lowercase` yields for a text.
pub uninterp spec fn lower_of(s: Seq<char>) -> Seq<char>;

/// The fields of `s` between occurrences of `sep`: one more than there are
/// separators, empty fields included.
pub open spec fn fields_of(s: Seq<char>, sep: char) -> Seq<Seq<char>>
    decreases s.len(),
{
    if s.len() == 0 {
        seq![Seq::<char>::empty()]
    } else {
        let prev = fields_of(s.drop_last(), sep);
        if s.last() == sep {
            prev.push(Seq::<char>::empty())
        } else {
            prev.update(prev.len() - 1, prev.last().push(s.last()))
        }
    }
}

/// Relies on `str::lines`: the lines of the text, in order.
#[verifier::external_body]
fn split_lines(s: &str) -> (r: Vec<String>)
    ensures
        r@.len() == lines_of(s@).len(),
        forall|i: int| 0 <= i < r@.len() ==> (#[trigger] r@[i])@ == lines_of(s@)[i],
{
    s.lines().map(|l| l.to_string()).collect()
}

/// Relies on `str::split` with a `char` pattern: the pieces between the
/// occurrences of the separator, in order.
#[verifier::external_body]
fn split_fields(s: &str, sep: char) -> (r: Vec<String>)
    ensures
        r@.len() == fields_of(s@, sep).len(),
        forall|i: int| 0 <= i < r@.len() ==> (#[trigger] r@[i])@ == fields_of(s@, sep)[i],
{
    s.split(sep).map(|f| f.to_string()).collect()
}

/// Relies on `str::to_lowercase`: the lower-case form of the text.
#[verifier::external_body]
fn lowercase(s: &str) -> (r: String)
    ensures
        r@ == lower_of(s@),
{
    s.to_lowercase()
}

/// The header text of the `name` column, in lower case.
pub open spec fn name_key() -> Seq<char> {
    seq!['n', 'a', 'm', 'e']
}

/// The header text of the `min` column, in lower case.
pub open spec fn min_key() -> Seq<char> {
    seq!['m', 'i', 'n']
}

/// The header text of the `mode` column, in lower case.
pub open spec fn mode_key() -> Seq<char> {
    seq!['m', 'o', 'd', 'e']
}

/// The header text of the `max` column, in lower case.
pub open spec fn max_key() -> Seq<char> {
    seq!['m', 'a', 'x']
}

/// The index of the last of the first `n` columns whose lower-case form is
/// `key`, or -1.
pub open spec fn last_column(cols: Seq<Seq<char>>, key: Seq<char>, n: int) -> int
    decreases n,
{
    if n <= 0 {
        -1
    } else if lower_of(cols[n - 1]) == key {
        n - 1
    } else {
        last_column(cols, key, n - 1)
    }
}

/// The positions of the four columns a task table needs.
#[derive(Debug, Clone, Copy, PartialEq, Eq, Structural)]
pub struct HeaderInfo {
    pub column_idx_name: usize,
    pub column_idx_min: usize,
    pub column_idx_mode: usize,
    pub column_idx_max: usize,
}

/// `h` names, for each of the four keys, the last header column equal to it
/// up to case.
pub open spec fn header_matches(h: HeaderInfo, cols: Seq<Seq<char>>) -> bool {
    &&& h.column_idx_name == last_column(cols, name_key(), cols.len() as int)
    &&& h.column_idx_min == last_column(cols, min_key(), cols.len() as int)
    &&& h.column_idx_mode == last_column(cols, mode_key(), cols.len() as int)
    &&& h.column_idx_max == last_column(cols, max_key(), cols.len() as int)
}

/// Every one of the four keys is among the header columns.
pub open spec fn has_all_columns(cols: Seq<Seq<char>>) -> bool {
    &&& last_column(cols, name_key(), cols.len() as int) >= 0
    &&& last_column(cols, min_key(), cols.len() as int) >= 0
    &&& last_column(cols, mode_key(), cols.len() as int) >= 0
    &&& last_column(cols, max_key(), cols.len() as int) >= 0
}

/// An owned copy of a column key.
fn key_string(k: &str) -> (r: String)
    ensures
        r@ == k@,
{
    k.to_owned()
}

/// Reads the header line with the given separator; `None` unless the name,
/// min, mode and max columns are all there.
pub fn parse_header_with_separator(header_line: &str, separator: char) -> (r: Option<HeaderInfo>)
    ensures
        r is Some <==> has_all_columns(fields_of(header_line@, separator)),
        r is Some ==> header_matches(r->Some_0, fields_of(header_line@, separator)),
{
    let cols = split_fields(header_line, separator);
    let ghost cs = fields_of(header_line@, separator);
    let name = key_string("name");
    let min = key_string("min");
    let mode = key_string("mode");
    let max = key_string("max");
    proof {
        reveal_strlit("name");
        reveal_strlit("min");
        reveal_strlit("mode");
        reveal_strlit("max");
        assert(name@ =~= name_key());
        assert(min@ =~= min_key());
        assert(mode@ =~= mode_key());
        assert(max@ =~= max_key());
    }
    let mut idx_name: Option<usize> = None;
    let mut idx_min: Option<usize> = None;
    let mut idx_mode: Option<usize> = None;
    let mut idx_max: Option<usize> = None;
    let mut j: usize = 0;
    while j < cols.len()
        invariant
            cols@.len() == cs.len(),
            forall|i: int| 0 <= i < cols@.len() ==> (#[trigger] cols@[i])@ == cs[i],
            name@ == name_key(),
            min@ == min_key(),
            mode@ == mode_key(),
            max@ == max_key(),
            j <= cols@.len(),
            match idx_name { Some(v) => v as int == last_column(cs, name_key(), j as int), None => last_column(cs, name_key(), j as int) == -1 },
            match idx_min { Some(v) => v as int == last_column(cs, min_key(), j as int), None => last_column(cs, min_key(), j as int) == -1 },
            match idx_mode { Some(v) => v as int == last_column(cs, mode_key(), j as int), None => last_column(cs, mode_key(), j as int) == -1 },
            match idx_max { Some(v) => v as int == last_column(cs, max_key(), j as int), None => last_column(cs, max_key(), j as int) == -1 },
        decreases cols@.len() - j,
    {
        let low = lowercase(cols[j].as_str());
        if low == name {
            idx_name = Some(j);
        } else if low == min {
            idx_min = Some(j);
        } else if low == mode {
            idx_mode = Some(j);
        } else if low == max {
            idx_max = Some(j);
        }
        j += 1;
    }
    match (idx_name, idx_min, idx_mode, idx_max) {
        (Some(a), Some(b), Some(c), Some(d)) => Some(
            HeaderInfo { column_idx_name: a, column_idx_min: b, column_idx_mode: c, column_idx_max: d },
        ),
        _ => None,
    }
}

/// The columns that `header_matches` requires, as a value.
pub open spec fn header_of(cols: Seq<Seq<char>>) -> HeaderInfo {
    HeaderInfo {
        column_idx_name: last_column(cols, name_key(), cols.len() as int) as usize,
        column_idx_min: last_column(cols, min_key(), cols.len() as int) as usize,
        column_idx_mode: last_column(cols, mode_key(), cols.len() as int) as usize,
        column_idx_max: last_column(cols, max_key(), cols.len() as int) as usize,
    }
}

/// The separator of a header line: the first of comma, tab and semicolon
/// with which all four columns are found.
pub open spec fn detected_separator(line: Seq<char>) -> Option<char> {
    if has_all_columns(fields_of(line, ',')) {
        Some(',')
    } else if has_all_columns(fields_of(line, '\t')) {
        Some('\t')
    } else if has_all_columns(fields_of(line, ';')) {
        Some(';')
    } else {
        None
    }
}

/// Finds the separator and the columns of a header line.
pub fn detect_header(header_line: &str) -> (r: Option<(HeaderInfo, char)>)
    ensures
        r is Some <==> detected_separator(header_line@) is Some,
        r is Some ==> r->Some_0.1 == detected_separator(header_line@)->Some_0
            && r->Some_0.0 == header_of(fields_of(header_line@, r->Some_0.1)),
{
    let separators: [char; 3] = [',', '\t', ';'];
    let mut i: usize = 0;
    while i < 3
        invariant
            i <= 3,
            separators@ == seq![',', '\t', ';'],
            i >= 1 ==> !has_all_columns(fields_of(header_line@, ',')),
            i >= 2 ==> !has_all_columns(fields_of(header_line@, '\t')),
            i >= 3 ==> !has_all_columns(fields_of(header_line@, ';')),
        decreases 3 - i,
    {
        let sep = separators[i];
        if let Some(h) = parse_header_with_separator(header_line, sep) {
            return Some((h, sep));
        }
        i += 1;
    }
    None
}

/// The cells of one task row, as text.
pub struct TaskCells {
    pub name: String,
    pub min: String,
    pub mode: String,
    pub max: String,
}

/// The row has a cell for each of the header's four columns.
pub open spec fn row_complete(f: Seq<Seq<char>>, h: HeaderInfo) -> bool {
    &&& h.column_idx_name < f.len()
    &&& h.column_idx_min < f.len()
    &&& h.column_idx_mode < f.len()
    &&& h.column_idx_max < f.len()
}

/// `c` holds the cells of the row's fields `f` at the header's columns.
pub open spec fn cells_match(c: TaskCells, f: Seq<Seq<char>>, h: HeaderInfo) -> bool {
    &&& c.name@ == f[h.column_idx_name as int]
    &&& c.min@ == f[h.column_idx_min as int]
    &&& c.mode@ == f[h.column_idx_mode as int]
    &&& c.max@ == f[h.column_idx_max as int]
}

/// The fields of line `i` of the text, split at the detected separator.
pub open spec fn row_fields(text: Seq<char>, i: int) -> Seq<Seq<char>> {
    fields_of(lines_of(text)[i], detected_separator(lines_of(text)[0])->Some_0)
}

/// The header columns of the text.
pub open spec fn table_header(text: Seq<char>) -> HeaderInfo {
    header_of(fields_of(lines_of(text)[0], detected_separator(lines_of(text)[0])->Some_0))
}

/// Every line after the header has all four cells.
pub open spec fn rows_complete(text: Seq<char>) -> bool {
    forall|i: int| 1 <= i < lines_of(text).len() ==> row_complete(#[trigger] row_fields(text, i), table_header(text))
}

/// Splits a task table into the header-selected cells of each row: the first
/// line is the header, every later line is one task.
pub fn parse_task_cells(csv_text: &str) -> (r: Result<Vec<TaskCells>, Error>)
    ensures
        r matches Err(Error::MissingHeader) <==> lines_of(csv_text@).len() == 0,
        r matches Err(Error::InvalidHeader) <==> lines_of(csv_text@).len() > 0
            && detected_separator(lines_of(csv_text@)[0]) is None,
        r matches Err(Error::MissingField) <==> lines_of(csv_text@).len() > 0
            && detected_separator(lines_of(csv_text@)[0]) is Some && !rows_complete(csv_text@),
        r is Err ==> r matches Err(Error::MissingHeader) || r matches Err(Error::InvalidHeader) || r matches Err(Error::MissingField),
        r is Ok ==> r->Ok_0@.len() == lines_of(csv_text@).len() - 1 && forall|i: int| 0 <= i < r->Ok_0@.len()
            ==> cells_match(#[trigger] r->Ok_0@[i], row_fields(csv_text@, i + 1), table_header(csv_text@)),
{
    let lines = split_lines(csv_text);
    let ghost ls = lines_of(csv_text@);
    if lines.len() == 0 {
        return Err(Error::MissingHeader);
    }
    let (header, sep) = match detect_header(lines[0].as_str()) {
        Some(found) => found,
        None => return Err(Error::InvalidHeader),
    };
    let mut rows: Vec<TaskCells> = Vec::new();
    let mut i: usize = 1;
    while i < lines.len()
        invariant
            lines@.len() == ls.len(),
            ls == lines_of(csv_text@),
            forall|j: int| 0 <= j < lines@.len() ==> (#[trigger] lines@[j])@ == ls[j],
            1 <= i <= lines@.len(),
            detected_separator(ls[0]) == Some(sep),
            header == table_header(csv_text@),
            rows@.len() == i - 1,
            forall|j: int| 1 <= j < i ==> row_complete(#[trigger] row_fields(csv_text@, j), header),
            forall|j: int| 0 <= j < rows@.len() ==> cells_match(#[trigger] rows@[j], row_fields(csv_text@, j + 1), header),
        decreases lines@.len() - i,
    {
        let cells = split_fields(lines[i].as_str(), sep);
        assert(fields_of(lines@[i as int]@, sep) == row_fields(csv_text@, i as int));
        if header.column_idx_name >= cells.len() || header.column_idx_min >= cells.len()
            || header.column_idx_mode >= cells.len() || header.column_idx_max >= cells.len() {
            assert(!row_complete(row_fields(csv_text@, i as int), header));
            return Err(Error::MissingField);
        }
        let row = TaskCells {
            name: cells[header.column_idx_name].clone(),
            min: cells[header.column_idx_min].clone(),
            mode: cells[header.column_idx_mode].clone(),
            max: cells[header.column_idx_max].clone(),
        };
        rows.push(row);
        i += 1;
    }
    Ok(rows)
}

} // verus!
