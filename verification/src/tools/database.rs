//! SQLite queries: which queries read, the sqlite3 command line, parsing of
//! its column output, and formatting of results as a table or as JSON.
//! Running sqlite3 is left to the application.

use crate::text;
use crate::text::{byte_len, decimal, join, lines_of, lowercase, split_on, starts_with, trim, views};
use vstd::prelude::*;

verus! {

/// DatabaseTool - SQLite database operations
pub struct DatabaseTool;

/// Output format type
#[derive(Debug, Clone, Copy, PartialEq, Eq, Structural)]
pub enum OutputFormat {
    /// Table format with headers
    Table,
    /// JSON format
    Json,
}

/// Database input parameters
#[derive(Debug, Clone)]
pub struct DatabaseInput {
    /// Path to SQLite database file
    pub database_path: String,
    /// SQL query to execute
    pub query: String,
    /// Output format (default: table)
    pub format: OutputFormat,
}

/// Database output result
#[derive(Debug, Clone)]
pub struct DatabaseOutput {
    /// Database path
    pub database_path: String,
    /// Query executed
    pub query: String,
    /// Number of rows returned/affected
    pub rows: u64,
    /// Column names
    pub columns: Vec<String>,
    /// Query results as strings
    pub data: Vec<Vec<String>>,
    /// Formatted output string
    pub formatted: String,
    /// Execution time in milliseconds
    pub execution_time_ms: u64,
}

/// The default output format.
pub fn default_format() -> (f: OutputFormat)
    ensures
        f == OutputFormat::Table,
{
    OutputFormat::Table
}

/// The views of rows of strings.
pub open spec fn rows_views(data: Seq<Vec<String>>) -> Seq<Seq<Seq<char>>> {
    data.map_values(|r: Vec<String>| views(r@))
}

/// The column widths after the first rows of `data`: each column as wide as
/// the longest (in bytes) of its header and its cells.
pub open spec fn widths_after(columns: Seq<Seq<char>>, data: Seq<Seq<Seq<char>>>) -> Seq<nat>
    decreases data.len(),
{
    if data.len() == 0 {
        columns.map_values(|c: Seq<char>| byte_len(c))
    } else {
        let w = widths_after(columns, data.drop_last());
        let row = data.last();
        Seq::new(
            w.len(),
            |i: int|
                if i < row.len() && byte_len(row[i]) > w[i] {
                    byte_len(row[i])
                } else {
                    w[i]
                },
        )
    }
}

/// `s` padded with spaces to `w` characters (`{:w$}`).
pub open spec fn pad(s: Seq<char>, w: nat) -> Seq<char> {
    if s.len() < w {
        s + Seq::new((w - s.len()) as nat, |i: int| ' ')
    } else {
        s
    }
}

/// A table cell: the padded text between two spaces.
pub open spec fn table_cell(s: Seq<char>, w: nat) -> Seq<char> {
    seq![' '] + pad(s, w) + seq![' ']
}

/// The cells of a row, each padded to its column's width (or its own length
/// beyond the known columns).
pub open spec fn row_cells(row: Seq<Seq<char>>, widths: Seq<nat>) -> Seq<Seq<char>> {
    Seq::new(
        row.len(),
        |i: int|
            table_cell(
                row[i],
                if i < widths.len() {
                    widths[i]
                } else {
                    byte_len(row[i])
                },
            ),
    )
}

/// The separator under the header: a dash run per column.
pub open spec fn separator_parts(widths: Seq<nat>) -> Seq<Seq<char>> {
    Seq::new(widths.len(), |i: int| seq!['-'] + Seq::new(widths[i], |j: int| '-'))
}

/// The query results as a text table with a header, a separator, the rows
/// and a row count.
pub open spec fn table_text(columns: Seq<Seq<char>>, data: Seq<Seq<Seq<char>>>) -> Seq<char> {
    if columns.len() == 0 && data.len() == 0 {
        "Empty result"@
    } else {
        let widths = widths_after(columns, data);
        let header = join(row_cells(columns, widths), seq!['|']);
        let separator = join(separator_parts(widths), seq!['+']);
        if data.len() == 0 {
            header + seq!['\n'] + separator + "\n(0 rows)"@
        } else {
            let rows = join(Seq::new(data.len(), |r: int| join(row_cells(data[r], widths), seq!['|'])), seq!['\n']);
            header + seq!['\n'] + separator + seq!['\n'] + rows + "\n("@ + decimal(data.len()) + " rows)"@
        }
    }
}

/// `s` padded with spaces to `w` characters, between two spaces.
fn padded_cell(s: &str, w: usize) -> (r: String)
    ensures
        r@ == table_cell(s@, w as nat),
{
    let n = text::chars_of(s).len();
    let mut r = text::owned(" ");
    text::push_str(&mut r, s);
    if n < w {
        let mut k: usize = 0;
        let ghost base = r@;
        while k < w - n
            invariant
                n < w,
                k <= w - n,
                r@ == base + Seq::new(k as nat, |i: int| ' '),
            decreases w - n - k,
        {
            text::push_char(&mut r, ' ');
            k += 1;
            assert(r@ =~= base + Seq::new(k as nat, |i: int| ' '));
        }
    }
    text::push_char(&mut r, ' ');
    proof {
        reveal_strlit(" ");
    }
    assert(r@ =~= table_cell(s@, w as nat));
    r
}

/// The cells of a row, padded to the column widths, joined by `|`.
fn format_row(row: &Vec<String>, widths: &Vec<usize>) -> (r: String)
    ensures
        r@ == join(row_cells(views(row@), widths@.map_values(|w: usize| w as nat)), seq!['|']),
{
    let mut cells: Vec<String> = Vec::new();
    let mut i: usize = 0;
    let ghost ws = widths@.map_values(|w: usize| w as nat);
    while i < row.len()
        invariant
            i <= row@.len(),
            ws == widths@.map_values(|w: usize| w as nat),
            views(cells@) == row_cells(views(row@), ws).take(i as int),
        decreases row@.len() - i,
    {
        let w = if i < widths.len() {
            widths[i]
        } else {
            text::str_len(row[i].as_str())
        };
        let cell = padded_cell(row[i].as_str(), w);
        let ghost before = views(cells@);
        let ghost rc = row_cells(views(row@), ws);
        assert(rc[i as int] == cell@);
        cells.push(cell);
        assert(views(cells@) =~= before.push(cell@));
        assert(rc.take(i + 1) =~= rc.take(i as int).push(rc[i as int]));
        i += 1;
    }
    assert(row_cells(views(row@), ws).take(i as int) =~= row_cells(views(row@), ws));
    proof {
        reveal_strlit("|");
    }
    let r = text::join_strings(cells.as_slice(), "|");
    assert("|"@ =~= seq!['|']);
    r
}

/// Format query results as table
pub fn format_table(columns: &[String], data: &[Vec<String>]) -> (r: String)
    ensures
        r@ == table_text(views(columns@), rows_views(data@)),
{
    if columns.len() == 0 && data.len() == 0 {
        return text::owned("Empty result");
    }
    let ghost cols = views(columns@);
    let ghost rows = rows_views(data@);
    let mut widths: Vec<usize> = Vec::new();
    let mut c: usize = 0;
    while c < columns.len()
        invariant
            c <= columns@.len(),
            widths@.len() == c,
            forall|j: int| 0 <= j < c ==> #[trigger] widths@[j] as nat == byte_len(cols[j]),
            cols == views(columns@),
        decreases columns@.len() - c,
    {
        widths.push(text::str_len(columns[c].as_str()));
        c += 1;
    }
    assert(rows.take(0) =~= Seq::<Seq<Seq<char>>>::empty());
    assert(widths@.map_values(|w: usize| w as nat) =~= widths_after(cols, rows.take(0)));
    let mut r: usize = 0;
    while r < data.len()
        invariant
            r <= data@.len(),
            cols == views(columns@),
            rows == rows_views(data@),
            widths@.map_values(|w: usize| w as nat) == widths_after(cols, rows.take(r as int)),
        decreases data@.len() - r,
    {
        let row = &data[r];
        assert(rows.take(r + 1).drop_last() =~= rows.take(r as int));
        assert(rows.take(r + 1).last() == views(row@));
        let ghost prev = widths@;
        let mut i: usize = 0;
        while i < row.len()
            invariant
                i <= row@.len(),
                widths@.len() == prev.len(),
                forall|j: int|
                    0 <= j < widths@.len() ==> (#[trigger] widths@[j] as nat) == if j < i && j < row@.len()
                        && byte_len(row@[j]@) > prev[j] as nat {
                        byte_len(row@[j]@)
                    } else {
                        prev[j] as nat
                    },
            decreases row@.len() - i,
        {
            if i < widths.len() {
                let n = text::str_len(row[i].as_str());
                if n > widths[i] {
                    widths.set(i, n);
                }
            }
            i += 1;
        }
        let ghost w_prev = widths_after(cols, rows.take(r as int));
        assert(w_prev =~= prev.map_values(|w: usize| w as nat));
        assert(widths_after(cols, rows.take(r + 1)) =~= Seq::new(
            w_prev.len(),
            |t: int|
                if t < views(row@).len() && byte_len(views(row@)[t]) > w_prev[t] {
                    byte_len(views(row@)[t])
                } else {
                    w_prev[t]
                },
        ));
        r += 1;
        assert(widths@.map_values(|w: usize| w as nat) =~= widths_after(cols, rows.take(r as int)));
    }
    assert(rows.take(r as int) =~= rows);
    proof {
        reveal_strlit("-");
    }
    let ghost ws = widths@.map_values(|w: usize| w as nat);
    let header = format_row(&text::copy_strings_vec(columns), &widths);
    let mut seps: Vec<String> = Vec::new();
    let mut k: usize = 0;
    while k < widths.len()
        invariant
            k <= widths@.len(),
            ws == widths@.map_values(|w: usize| w as nat),
            views(seps@) == separator_parts(ws).take(k as int),
            "-"@ == seq!['-'],
        decreases widths@.len() - k,
    {
        let mut s = text::owned("-");
        let mut j: usize = 0;
        let ghost base = s@;
        while j < widths[k]
            invariant
                j <= widths@[k as int],
                k < widths@.len(),
                s@ == base + Seq::new(j as nat, |t: int| '-'),
            decreases widths@[k as int] - j,
        {
            text::push_char(&mut s, '-');
            j += 1;
            assert(s@ =~= base + Seq::new(j as nat, |t: int| '-'));
        }
        let ghost before = views(seps@);
        let ghost sp = separator_parts(ws);
        assert(s@ =~= sp[k as int]);
        seps.push(s);
        assert(views(seps@) =~= before.push(sp[k as int]));
        assert(sp.take(k + 1) =~= sp.take(k as int).push(sp[k as int]));
        k += 1;
    }
    assert(separator_parts(ws).take(k as int) =~= separator_parts(ws));
    proof {
        reveal_strlit("+");
        reveal_strlit("\n");
    }
    let separator = text::join_strings(seps.as_slice(), "+");
    assert("+"@ =~= seq!['+']);
    let mut out = header;
    text::push_str(&mut out, "\n");
    text::push_str(&mut out, separator.as_str());
    if data.len() == 0 {
        text::push_str(&mut out, "\n(0 rows)");
        assert(out@ =~= table_text(cols, rows));
        return out;
    }
    let mut lines: Vec<String> = Vec::new();
    let mut q: usize = 0;
    while q < data.len()
        invariant
            q <= data@.len(),
            rows == rows_views(data@),
            ws == widths@.map_values(|w: usize| w as nat),
            views(lines@) == Seq::new(data@.len(), |t: int| join(row_cells(rows[t], ws), seq!['|'])).take(q as int),
        decreases data@.len() - q,
    {
        let line = format_row(&data[q], &widths);
        let ghost before = views(lines@);
        let ghost all = Seq::new(data@.len(), |t: int| join(row_cells(rows[t], ws), seq!['|']));
        assert(rows[q as int] == views(data@[q as int]@));
        assert(all[q as int] == line@);
        lines.push(line);
        assert(views(lines@) =~= before.push(all[q as int]));
        assert(all.take(q + 1) =~= all.take(q as int).push(all[q as int]));
        q += 1;
    }
    assert(Seq::new(data@.len(), |t: int| join(row_cells(rows[t], ws), seq!['|'])).take(q as int) =~= Seq::new(
        data@.len(),
        |t: int| join(row_cells(rows[t], ws), seq!['|']),
    ));
    let body = text::join_strings(lines.as_slice(), "\n");
    assert("\n"@ =~= seq!['\n']);
    text::push_str(&mut out, "\n");
    text::push_str(&mut out, body.as_str());
    text::push_str(&mut out, "\n(");
    text::push_decimal(&mut out, data.len() as u64);
    text::push_str(&mut out, " rows)");
    assert(out@ =~= table_text(cols, rows));
    out
}

} // verus!

verus! {

/// The JSON text of result rows, each an object from column names to cell
/// strings, in the form `serde_json` writes it.
pub uninterp spec fn json_rows_text(columns: Seq<Seq<char>>, rows: Seq<Seq<Seq<char>>>) -> Seq<char>;

/// `serde_json::to_string` of the rows as an array of objects (a `Map` from
/// each column name to `Value::String` of its cell): the text named by
/// `json_rows_text`. Every row holds one cell per column.
#[verifier::external_body]
fn json_rows(columns: &[String], rows: &Vec<Vec<String>>) -> (s: String)
    requires
        forall|i: int| 0 <= i < rows@.len() ==> #[trigger] rows@[i]@.len() == columns@.len(),
    ensures
        s@ == json_rows_text(views(columns@), rows_views(rows@)),
{
    let values: Vec<serde_json::Value> = rows.iter().map(|row| serde_json::Value::Object(
        columns.iter().cloned().zip(row.iter().cloned().map(serde_json::Value::String)).collect(),
    )).collect();
    serde_json::to_string(&values).unwrap_or_else(|_| "[]".to_string())
}

/// The cells of `row` for `n` columns: missing cells are empty.
pub open spec fn cells_for(row: Seq<Seq<char>>, n: nat) -> Seq<Seq<char>> {
    Seq::new(n, |i: int| if i < row.len() { row[i] } else { seq![] })
}

/// Format query results as JSON: one object per row, from each column name
/// to its cell (empty where the row is short).
pub fn format_json(columns: &[String], data: &[Vec<String>]) -> (s: String)
    ensures
        s@ == json_rows_text(views(columns@), rows_views(data@).map_values(|r: Seq<Seq<char>>| cells_for(r, columns@.len()))),
{
    let mut rows: Vec<Vec<String>> = Vec::new();
    let mut r: usize = 0;
    let ghost target = rows_views(data@).map_values(|row: Seq<Seq<char>>| cells_for(row, columns@.len()));
    while r < data.len()
        invariant
            r <= data@.len(),
            target == rows_views(data@).map_values(|row: Seq<Seq<char>>| cells_for(row, columns@.len())),
            rows_views(rows@) == target.take(r as int),
            forall|i: int| 0 <= i < rows@.len() ==> #[trigger] rows@[i]@.len() == columns@.len(),
        decreases data@.len() - r,
    {
        let row = &data[r];
        let mut cells: Vec<String> = Vec::new();
        let mut i: usize = 0;
        while i < columns.len()
            invariant
                i <= columns@.len(),
                views(cells@) == cells_for(views(row@), columns@.len()).take(i as int),
            decreases columns@.len() - i,
        {
            let ghost before = views(cells@);
            let cell = if i < row.len() {
                row[i].clone()
            } else {
                String::new()
            };
            let ghost cf = cells_for(views(row@), columns@.len());
            assert(cell@ =~= cf[i as int]);
            cells.push(cell);
            assert(views(cells@) =~= before.push(cf[i as int]));
            assert(cf.take(i + 1) =~= cf.take(i as int).push(cf[i as int]));
            i += 1;
        }
        assert(cells_for(views(row@), columns@.len()).take(i as int) =~= cells_for(views(row@), columns@.len()));
        let ghost before = rows_views(rows@);
        rows.push(cells);
        assert(target[r as int] == cells_for(views(row@), columns@.len()));
        assert(rows_views(rows@) =~= before.push(target[r as int]));
        assert(target.take(r + 1) =~= target.take(r as int).push(target[r as int]));
        r += 1;
    }
    assert(target.take(r as int) =~= target);
    json_rows(columns, &rows)
}

/// A query reads when, trimmed and in lowercase, it starts with `select` or
/// `pragma`.
pub open spec fn is_read_query(query: Seq<char>) -> bool {
    let q = lowercase(trim(query));
    starts_with(q, "select"@) || starts_with(q, "pragma"@)
}

/// The pieces of a line of sqlite's column output, trimmed.
pub open spec fn column_fields(line: Seq<char>) -> Seq<Seq<char>> {
    split_on(line, '|').map_values(|f: Seq<char>| trim(f))
}

/// Whether a line is the separator under the header: it holds a dash.
pub open spec fn has_dash(line: Seq<char>) -> bool {
    text::first_occurrence(line, "-"@) is Some
}

/// sqlite's column output as a header, rows and a row count: the first line
/// is the header; a second line holding a dash is the separator.
pub open spec fn parsed_table(stdout: Seq<char>) -> (Seq<Seq<char>>, Seq<Seq<Seq<char>>>) {
    let lines = lines_of(stdout);
    if lines.len() == 0 {
        (seq![], seq![])
    } else {
        let start = if lines.len() > 1 && has_dash(lines[1]) {
            2int
        } else {
            1int
        };
        (column_fields(lines[0]), lines.skip(start).map_values(|l: Seq<char>| column_fields(l)))
    }
}

/// The trimmed fields of one line.
fn fields_of(line: &str) -> (v: Vec<String>)
    ensures
        views(v@) == column_fields(line@),
{
    let parts = text::split_char(line, '|');
    let mut out: Vec<String> = Vec::new();
    let mut i: usize = 0;
    while i < parts.len()
        invariant
            i <= parts@.len(),
            views(out@) == column_fields(line@).take(i as int),
            views(parts@) == split_on(line@, '|'),
        decreases parts@.len() - i,
    {
        let ghost before = views(out@);
        let t = text::str_trim(parts[i].as_str());
        out.push(t);
        assert(views(out@) =~= before.push(column_fields(line@)[i as int]));
        assert(column_fields(line@).take(i + 1) =~= column_fields(line@).take(i as int).push(
            column_fields(line@)[i as int],
        ));
        i += 1;
    }
    assert(column_fields(line@).take(i as int) =~= column_fields(line@));
    out
}

/// JSON result rows as read: for each item, its fields as (name, text)
/// pairs when it is an object.
pub open spec fn field_views(fields: Seq<(String, String)>) -> Seq<(Seq<char>, Seq<char>)> {
    fields.map_values(|f: (String, String)| (f.0@, f.1@))
}

/// The view of JSON result rows as read (see `read_json_rows`).
pub open spec fn json_rows_view(r: Result<Option<Vec<Option<Vec<(String, String)>>>>, String>) -> Result<
    Option<Seq<Option<Seq<(Seq<char>, Seq<char>)>>>>,
    Seq<char>,
> {
    match r {
        Ok(Some(rows)) => Ok(
            Some(
                rows@.map_values(
                    |row: Option<Vec<(String, String)>>|
                        match row {
                            Some(fields) => Some(field_views(fields@)),
                            None => None,
                        },
                ),
            ),
        ),
        Ok(None) => Ok(None),
        Err(e) => Err(e@),
    }
}

/// `stdout` read as one JSON value by `serde_json`: when it is an array,
/// each item's fields as (name, text) pairs in the order `serde_json` lists
/// them (a string's text being the string, any other value's its JSON
/// text), `None` for an item that is not an object; `None` when the value
/// is not an array; the parser's message when the text is not JSON.
pub uninterp spec fn sqlite_json_rows(stdout: Seq<char>) -> Result<
    Option<Seq<Option<Seq<(Seq<char>, Seq<char>)>>>>,
    Seq<char>,
>;

/// `serde_json::from_str` into a `serde_json::Value`, then its array items
/// and their object fields, each value as its string or else its JSON
/// text (`Value::to_string`): the rows named by `sqlite_json_rows`.
#[verifier::external_body]
fn read_json_rows(stdout: &str) -> (r: Result<Option<Vec<Option<Vec<(String, String)>>>>, String>)
    ensures
        json_rows_view(r) == sqlite_json_rows(stdout@),
{
    let value: serde_json::Value = serde_json::from_str(stdout).map_err(|e| e.to_string())?;
    let text = |v: &serde_json::Value| match v {
        serde_json::Value::String(s) => s.clone(),
        other => other.to_string(),
    };
    Ok(value.as_array().map(|rows| rows.iter().map(|row| row.as_object().map(
        |obj| obj.iter().map(|(k, v)| (k.clone(), text(v))).collect(),
    )).collect()))
}

/// The text of the first field named `col`, or nothing when none is.
pub open spec fn field_text(fields: Seq<(Seq<char>, Seq<char>)>, col: Seq<char>) -> Seq<char>
    decreases fields.len(),
{
    if fields.len() == 0 {
        seq![]
    } else if fields[0].0 == col {
        fields[0].1
    } else {
        field_text(fields.drop_first(), col)
    }
}

/// The columns of JSON rows: the field names of the first row, when it is
/// an object.
pub open spec fn json_columns(rows: Seq<Option<Seq<(Seq<char>, Seq<char>)>>>) -> Seq<Seq<char>> {
    match rows[0] {
        Some(fields) => fields.map_values(|f: (Seq<char>, Seq<char>)| f.0),
        None => seq![],
    }
}

/// The cells of a JSON row under `columns`: each column's field text (empty
/// when missing), or no cells when the row is not an object.
pub open spec fn json_row_cells(row: Option<Seq<(Seq<char>, Seq<char>)>>, columns: Seq<Seq<char>>) -> Seq<Seq<char>> {
    match row {
        Some(fields) => columns.map_values(|c: Seq<char>| field_text(fields, c)),
        None => seq![],
    }
}

/// The table of JSON result rows: the columns, each row's cells and the
/// row count; nothing for no rows or a value that is not an array; the
/// error for text that is not JSON.
pub open spec fn spec_json_table(parsed: Result<Option<Seq<Option<Seq<(Seq<char>, Seq<char>)>>>>, Seq<char>>) -> Result<
    (Seq<Seq<char>>, Seq<Seq<Seq<char>>>, nat),
    Seq<char>,
> {
    match parsed {
        Err(e) => Err("Failed to parse JSON: "@ + e),
        Ok(None) => Ok((seq![], seq![], 0)),
        Ok(Some(rows)) => if rows.len() == 0 {
            Ok((seq![], seq![], 0))
        } else {
            let columns = json_columns(rows);
            Ok(
                (
                    columns,
                    rows.map_values(|row: Option<Seq<(Seq<char>, Seq<char>)>>| json_row_cells(row, columns)),
                    rows.len(),
                ),
            )
        },
    }
}

/// The text of the first field named `col`.
fn lookup_field(fields: &Vec<(String, String)>, col: &String) -> (t: String)
    ensures
        t@ == field_text(field_views(fields@), col@),
{
    let ghost fv = field_views(fields@);
    let mut i: usize = 0;
    assert(fv.skip(0) =~= fv);
    while i < fields.len()
        invariant
            i <= fields@.len(),
            fv == field_views(fields@),
            field_text(fv, col@) == field_text(fv.skip(i as int), col@),
        decreases fields@.len() - i,
    {
        assert(fv.skip(i as int)[0] == (fields@[i as int].0@, fields@[i as int].1@));
        if text::str_eq(fields[i].0.as_str(), col.as_str()) {
            return fields[i].1.clone();
        }
        assert(fv.skip(i as int).drop_first() =~= fv.skip(i + 1));
        i += 1;
    }
    assert(fv.skip(i as int).len() == 0);
    String::new()
}

/// The result table of JSON rows as read from `sqlite3 -json` output.
pub fn json_table(parsed: Result<Option<Vec<Option<Vec<(String, String)>>>>, String>) -> (r: Result<
    (Vec<String>, Vec<Vec<String>>, u64),
    String,
>)
    ensures
        match spec_json_table(json_rows_view(parsed)) {
            Ok((c, d, n)) => r matches Ok((rc, rd, rn)) && views(rc@) == c && rows_views(rd@) == d && rn == n,
            Err(e) => r matches Err(m) && m@ == e,
        },
{
    match parsed {
        Err(e) => {
            let mut m = text::owned("Failed to parse JSON: ");
            text::push_str(&mut m, e.as_str());
            Err(m)
        },
        Ok(None) => {
            let r: (Vec<String>, Vec<Vec<String>>, u64) = (Vec::new(), Vec::new(), 0);
            assert(views(r.0@) =~= Seq::<Seq<char>>::empty());
            assert(rows_views(r.1@) =~= Seq::<Seq<Seq<char>>>::empty());
            Ok(r)
        },
        Ok(Some(rows)) => {
            let ghost rv = rows@.map_values(
                |row: Option<Vec<(String, String)>>|
                    match row {
                        Some(fields) => Some(field_views(fields@)),
                        None => None,
                    },
            );
            if rows.len() == 0 {
                let r: (Vec<String>, Vec<Vec<String>>, u64) = (Vec::new(), Vec::new(), 0);
                assert(views(r.0@) =~= Seq::<Seq<char>>::empty());
                assert(rows_views(r.1@) =~= Seq::<Seq<Seq<char>>>::empty());
                return Ok(r);
            }
            let ghost cols = json_columns(rv);
            let mut columns: Vec<String> = Vec::new();
            match &rows[0] {
                Some(fields) => {
                    let mut i: usize = 0;
                    while i < fields.len()
                        invariant
                            i <= fields@.len(),
                            rv.len() == rows@.len(),
                            rows@.len() > 0,
                            rv[0] == Some(field_views(fields@)),
                            cols == json_columns(rv),
                            views(columns@) == cols.take(i as int),
                            cols.len() == fields@.len(),
                        decreases fields@.len() - i,
                    {
                        assert(field_views(fields@)[i as int] == (fields@[i as int].0@, fields@[i as int].1@));
                        assert(cols[i as int] == fields@[i as int].0@);
                        let ghost before = views(columns@);
                        let name = fields[i].0.clone();
                        columns.push(name);
                        assert(views(columns@) =~= before.push(cols[i as int]));
                        assert(cols.take(i + 1) =~= cols.take(i as int).push(cols[i as int]));
                        i += 1;
                    }
                    assert(cols.take(i as int) =~= cols);
                },
                None => {
                    assert(views(columns@) =~= cols);
                },
            }
            let mut data: Vec<Vec<String>> = Vec::new();
            let mut r: usize = 0;
            while r < rows.len()
                invariant
                    r <= rows@.len(),
                    rv.len() == rows@.len(),
                    rv == rows@.map_values(
                        |row: Option<Vec<(String, String)>>|
                            match row {
                                Some(fields) => Some(field_views(fields@)),
                                None => None,
                            },
                    ),
                    views(columns@) == cols,
                    rows_views(data@) == rv.take(r as int).map_values(
                        |row: Option<Seq<(Seq<char>, Seq<char>)>>| json_row_cells(row, cols),
                    ),
                decreases rows@.len() - r,
            {
                let mut cells: Vec<String> = Vec::new();
                match &rows[r] {
                    Some(fields) => {
                        let mut c: usize = 0;
                        while c < columns.len()
                            invariant
                                c <= columns@.len(),
                                r < rv.len(),
                                views(columns@) == cols,
                                rv[r as int] == Some(field_views(fields@)),
                                views(cells@) == cols.take(c as int).map_values(
                                    |col: Seq<char>| field_text(field_views(fields@), col),
                                ),
                            decreases columns@.len() - c,
                        {
                            assert(views(columns@)[c as int] == columns@[c as int]@);
                            let t = lookup_field(fields, &columns[c]);
                            let ghost before = views(cells@);
                            let ghost want = cols.take(c as int).map_values(
                                |col: Seq<char>| field_text(field_views(fields@), col),
                            );
                            cells.push(t);
                            assert(views(cells@) =~= before.push(field_text(field_views(fields@), cols[c as int])));
                            assert(cols.take(c + 1).map_values(
                                |col: Seq<char>| field_text(field_views(fields@), col),
                            ) =~= want.push(field_text(field_views(fields@), cols[c as int])));
                            c += 1;
                        }
                        assert(cols.take(c as int) =~= cols);
                        assert(views(cells@) == json_row_cells(rv[r as int], cols));
                    },
                    None => {
                        assert(views(cells@) =~= json_row_cells(rv[r as int], cols));
                    },
                }
                let ghost row_cells = views(cells@);
                assert(row_cells == json_row_cells(rv[r as int], cols));
                let ghost before = rows_views(data@);
                let ghost want = rv.take(r as int).map_values(
                    |row: Option<Seq<(Seq<char>, Seq<char>)>>| json_row_cells(row, cols),
                );
                data.push(cells);
                assert(rows_views(data@) =~= before.push(row_cells));
                assert(rv.take(r + 1).map_values(
                    |row: Option<Seq<(Seq<char>, Seq<char>)>>| json_row_cells(row, cols),
                ) =~= want.push(row_cells));
                r += 1;
            }
            assert(rv.take(r as int) =~= rv);
            let n = data.len() as u64;
            Ok((columns, data, n))
        },
    }
}

/// The result table of `sqlite3 -json` output: nothing for empty output,
/// else the rows `serde_json` reads from it, as `json_table` takes them.
pub fn rows_from_json_output(stdout: &str) -> (r: Result<(Vec<String>, Vec<Vec<String>>, u64), String>)
    ensures
        stdout@.len() == 0 ==> (r matches Ok((c, d, n)) && c@.len() == 0 && d@.len() == 0 && n == 0),
        stdout@.len() > 0 ==> match spec_json_table(sqlite_json_rows(stdout@)) {
            Ok((c, d, n)) => r matches Ok((rc, rd, rn)) && views(rc@) == c && rows_views(rd@) == d && rn == n,
            Err(e) => r matches Err(m) && m@ == e,
        },
{
    if text::chars_of(stdout).len() == 0 {
        return Ok((Vec::new(), Vec::new(), 0));
    }
    json_table(read_json_rows(stdout))
}

/// Parse sqlite's column output into the header, the rows and their count.
pub fn parse_table_output(stdout: &str) -> (r: (Vec<String>, Vec<Vec<String>>, u64))
    ensures
        views(r.0@) == parsed_table(stdout@).0,
        rows_views(r.1@) == parsed_table(stdout@).1,
        r.2 == r.1@.len(),
{
    proof {
        reveal_strlit("-");
    }
    let lines = text::split_lines(stdout);
    let ghost ls = views(lines@);
    if lines.len() == 0 {
        let cols: Vec<String> = Vec::new();
        let data: Vec<Vec<String>> = Vec::new();
        assert(views(cols@) =~= Seq::<Seq<char>>::empty());
        assert(rows_views(data@) =~= Seq::<Seq<Seq<char>>>::empty());
        return (cols, data, 0);
    }
    let columns = fields_of(lines[0].as_str());
    let start: usize = if lines.len() > 1 && text::str_contains(lines[1].as_str(), "-") {
        2
    } else {
        1
    };
    let ghost target = ls.skip(start as int).map_values(|l: Seq<char>| column_fields(l));
    let mut data: Vec<Vec<String>> = Vec::new();
    let mut i: usize = start;
    assert(rows_views(data@) =~= target.take(0));
    while i < lines.len()
        invariant
            start <= i <= lines@.len(),
            ls == views(lines@),
            target == ls.skip(start as int).map_values(|l: Seq<char>| column_fields(l)),
            rows_views(data@) == target.take(i - start),
        decreases lines@.len() - i,
    {
        let ghost before = rows_views(data@);
        let row = fields_of(lines[i].as_str());
        data.push(row);
        assert(target[i - start] == column_fields(ls[i as int]));
        assert(rows_views(data@) =~= before.push(target[i - start]));
        assert(target.take(i + 1 - start) =~= target.take(i - start).push(target[i - start]));
        i += 1;
    }
    assert(target.take(i - start) =~= target);
    let n = data.len() as u64;
    (columns, data, n)
}

/// The error for a read on a database file that does not exist.
pub open spec fn missing_database_message(path: Seq<char>) -> Seq<char> {
    "Database file not found: "@ + path
}

/// Appends copies of all strings of `extra` to `v`.
fn push_all_strings(v: &mut Vec<String>, extra: &[String])
    ensures
        final(v)@ == old(v)@ + extra@,
{
    let mut i: usize = 0;
    while i < extra.len()
        invariant
            i <= extra@.len(),
            v@ == old(v)@ + extra@.take(i as int),
        decreases extra@.len() - i,
    {
        v.push(extra[i].clone());
        i += 1;
        assert(v@ =~= old(v)@ + extra@.take(i as int));
    }
    assert(extra@.take(i as int) =~= extra@);
}

impl DatabaseTool {
    /// A database tool.
    pub fn new() -> (t: Self) {
        Self
    }

    /// Tool name (used in API calls)
    pub fn name(&self) -> (n: &'static str)
        ensures
            n@ == "Database"@,
    {
        "Database"
    }

    /// Tool description (shown to the model)
    pub fn description(&self) -> (d: String)
        ensures
            d@ == "Execute SQL queries on SQLite databases. Get table info, run queries, and format results as table or JSON."@,
    {
        text::owned(
            "Execute SQL queries on SQLite databases. Get table info, run queries, and format results as table or JSON.",
        )
    }

    /// A query is read-only when, in lowercase, it starts with `select`,
    /// `pragma` or `describe`.
    pub fn is_read_only(input: &DatabaseInput) -> (b: bool)
        ensures
            b == (starts_with(lowercase(input.query@), "select"@) || starts_with(lowercase(input.query@), "pragma"@)
                || starts_with(lowercase(input.query@), "describe"@)),
    {
        let q = text::str_to_lowercase(input.query.as_str());
        text::str_starts_with(q.as_str(), "select") || text::str_starts_with(q.as_str(), "pragma")
            || text::str_starts_with(q.as_str(), "describe")
    }

    /// Whether the query reads (so the database must exist).
    pub fn is_read_query(query: &str) -> (b: bool)
        ensures
            b == is_read_query(query@),
    {
        let t = text::str_trim(query);
        let q = text::str_to_lowercase(t.as_str());
        text::str_starts_with(q.as_str(), "select") || text::str_starts_with(q.as_str(), "pragma")
    }

    /// The error before running, if any: a read on a missing database file.
    pub fn precheck(input: &DatabaseInput, db_exists: bool) -> (r: Option<String>)
        ensures
            is_read_query(input.query@) && !db_exists ==> (r matches Some(e) && e@ == missing_database_message(
                input.database_path@,
            )),
            !(is_read_query(input.query@) && !db_exists) ==> r is None,
    {
        if Self::is_read_query(input.query.as_str()) && !db_exists {
            let mut e = text::owned("Database file not found: ");
            text::push_str(&mut e, input.database_path.as_str());
            Some(e)
        } else {
            None
        }
    }

    /// The arguments of the sqlite3 command: the database, the output mode
    /// flags, then the query.
    pub fn sqlite_args(input: &DatabaseInput) -> (args: Vec<String>)
        ensures
            views(args@) == seq![input.database_path@] + (match input.format {
                OutputFormat::Json => seq!["-json"@],
                OutputFormat::Table => seq!["-header"@, "-column"@],
            }) + seq![input.query@],
    {
        let mut args: Vec<String> = Vec::new();
        args.push(input.database_path.clone());
        match input.format {
            OutputFormat::Json => {
                args.push(text::owned("-json"));
            },
            OutputFormat::Table => {
                args.push(text::owned("-header"));
                args.push(text::owned("-column"));
            },
        }
        args.push(input.query.clone());
        assert(views(args@) =~= seq![input.database_path@] + (match input.format {
            OutputFormat::Json => seq!["-json"@],
            OutputFormat::Table => seq!["-header"@, "-column"@],
        }) + seq![input.query@]);
        args
    }

    /// The result of a query: its columns and rows formatted in the requested
    /// form, or the database error.
    pub fn result(
        input: &DatabaseInput,
        output: Result<(Vec<String>, Vec<Vec<String>>, u64), String>,
        execution_time_ms: u64,
    ) -> (r: Result<DatabaseOutput, String>)
        ensures
            match output {
                Ok((columns, data, rows)) => r matches Ok(out) && {
                    &&& out.database_path@ == input.database_path@
                    &&& out.query@ == input.query@
                    &&& out.rows == rows
                    &&& out.columns@ == columns@
                    &&& out.data@ == data@
                    &&& out.execution_time_ms == execution_time_ms
                    &&& out.formatted@ == match input.format {
                        OutputFormat::Table => table_text(views(columns@), rows_views(data@)),
                        OutputFormat::Json => json_rows_text(
                            views(columns@),
                            rows_views(data@).map_values(|row: Seq<Seq<char>>| cells_for(row, columns@.len())),
                        ),
                    }
                },
                Err(e) => r matches Err(m) && m@ == "Database error: "@ + e@,
            },
    {
        match output {
            Ok((columns, data, rows)) => {
                let formatted = match input.format {
                    OutputFormat::Table => format_table(columns.as_slice(), data.as_slice()),
                    OutputFormat::Json => format_json(columns.as_slice(), data.as_slice()),
                };
                Ok(
                    DatabaseOutput {
                        database_path: input.database_path.clone(),
                        query: input.query.clone(),
                        rows,
                        columns,
                        data,
                        formatted,
                        execution_time_ms,
                    },
                )
            },
            Err(e) => {
                let mut m = text::owned("Database error: ");
                text::push_str(&mut m, e.as_str());
                Err(m)
            },
        }
    }
}

} // verus!
