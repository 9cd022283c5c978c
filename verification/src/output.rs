//! The presentations of a run of records: grid table, HTML table, JSON
//! lines and comma-separated values.

use crate::csv::{
    csv_document, decimal, decimal_of, digit_char, document_text, header_fields, record_fields,
};
use crate::model::{record_views, LinePolicy, Record, RecordView};
use crate::record::rendered_of;
use crate::text::{chars_of, string_of};
use vstd::prelude::*;
use vstd::string::*;

verus! {

/// Width of the border that makes an HTML table's border visible.
pub const HTML_BORDER: usize = 1;

/// The presentation that a run of records is written in.
#[derive(Clone, Copy, Debug, PartialEq, Eq)]
pub enum OutputFormat {
    Table,
    Json,
    Csv,
    Html,
}

/// What tabled draws for these rows of cells in its default style.
pub uninterp spec fn grid_text(rows: Seq<Seq<Seq<char>>>) -> Seq<char>;

/// What table_to_html writes for these rows of cells with a border of the
/// given width.
pub uninterp spec fn html_text(rows: Seq<Seq<Seq<char>>>, border: nat) -> Seq<char>;

/// The lower-case hexadecimal digit for a number below sixteen.
pub open spec fn hex_digit(d: nat) -> char {
    if d < 10 {
        digit_char(d)
    } else if d == 10 {
        'a'
    } else if d == 11 {
        'b'
    } else if d == 12 {
        'c'
    } else if d == 13 {
        'd'
    } else if d == 14 {
        'e'
    } else {
        'f'
    }
}

/// A character as it stands inside a JSON string: a quote and a backslash
/// behind a backslash, the five control characters that have a short form
/// in that form, any other character below the space as `\u00` and two
/// hexadecimal digits, and every other character as it is.
pub open spec fn json_escape(c: char) -> Seq<char> {
    let n = c as u32;
    if c == '"' {
        seq!['\\', '"']
    } else if c == '\\' {
        seq!['\\', '\\']
    } else if n == 0x08 {
        seq!['\\', 'b']
    } else if n == 0x09 {
        seq!['\\', 't']
    } else if n == 0x0A {
        seq!['\\', 'n']
    } else if n == 0x0C {
        seq!['\\', 'f']
    } else if n == 0x0D {
        seq!['\\', 'r']
    } else if n < 0x20 {
        seq!['\\', 'u', '0', '0', hex_digit((n / 16) as nat), hex_digit((n % 16) as nat)]
    } else {
        seq![c]
    }
}

/// The characters of a text, each as it stands inside a JSON string.
pub open spec fn json_escaped(text: Seq<char>) -> Seq<char>
    decreases text.len(),
{
    if text.len() == 0 {
        seq![]
    } else {
        json_escaped(text.drop_last()) + json_escape(text.last())
    }
}

/// A text as a JSON string: its characters escaped, between quotes.
pub open spec fn json_string_text(text: Seq<char>) -> Seq<char> {
    seq!['"'] + json_escaped(text) + seq!['"']
}

/// The cells of a run of rows.
pub open spec fn row_views(rows: Seq<Vec<String>>) -> Seq<Seq<Seq<char>>> {
    Seq::new(rows.len(), |i: int| cell_views(rows[i]@))
}

/// The cells of one row.
pub open spec fn cell_views(row: Seq<String>) -> Seq<Seq<char>> {
    Seq::new(row.len(), |j: int| row[j]@)
}

/// The rows of a table of records: the column names, then a row for each
/// record in order.
pub open spec fn table_rows(records: Seq<RecordView>) -> Seq<Seq<Seq<char>>>
    decreases records.len(),
{
    if records.len() == 0 {
        seq![header_fields()]
    } else {
        table_rows(records.drop_last()).push(record_fields(records.last()))
    }
}

/// The rendered line as JSON shows it: an empty one is left out like a
/// missing one.
pub open spec fn shown_line(r: RecordView) -> Option<Seq<char>> {
    match r.rendered_line {
        Some(text) => if text.len() > 0 {
            Some(text)
        } else {
            None
        },
        None => None,
    }
}

/// A JSON object of a record's members, each value already written as
/// JSON. The member `line` is there only where a value is given for it.
pub open spec fn json_object_text(
    path: Seq<char>,
    line_number: nat,
    commit: Seq<char>,
    author: Seq<char>,
    line: Option<Seq<char>>,
    datetime: Seq<char>,
) -> Seq<char> {
    "{\"path\":"@ + path + ",\"lineno\":"@ + decimal_of(line_number) + ",\"commit\":"@ + commit
        + ",\"author\":"@ + author + (match line {
        Some(text) => ",\"line\":"@ + text,
        None => seq![],
    }) + ",\"datetime\":"@ + datetime + "}"@
}

/// The JSON text of a value that may be missing.
pub open spec fn json_optional(text: Option<Seq<char>>) -> Option<Seq<char>> {
    match text {
        Some(t) => Some(json_string_text(t)),
        None => None,
    }
}

/// The JSON object of a record, on one line.
pub open spec fn json_line_text(r: RecordView) -> Seq<char> {
    json_object_text(
        json_string_text(r.path),
        r.line_number,
        json_string_text(r.short_commit_id),
        json_string_text(r.author),
        json_optional(shown_line(r)),
        json_string_text(r.datetime),
    )
}

/// The JSON objects of a run of records, each followed by a line feed.
pub open spec fn json_lines_text(records: Seq<RecordView>) -> Seq<char>
    decreases records.len(),
{
    if records.len() == 0 {
        seq![]
    } else {
        json_lines_text(records.drop_last()) + json_line_text(records.last()).push('\n')
    }
}

/// The text of a run of records in a format.
pub open spec fn rendered_text(records: Seq<RecordView>, format: OutputFormat) -> Seq<char> {
    match format {
        OutputFormat::Table => grid_text(table_rows(records)).push('\n'),
        OutputFormat::Html => html_text(table_rows(records), 1).push('\n'),
        OutputFormat::Json => json_lines_text(records),
        OutputFormat::Csv => document_text(records),
    }
}

/// Calls tabled: `Builder::from` on the rows, `build`, and the table's
/// `to_string`. The text is a function of the cells alone.
#[verifier::external_body]
fn draw_grid(rows: &Vec<Vec<String>>) -> (r: String)
    ensures
        r@ == grid_text(row_views(rows@)),
{
    tabled::builder::Builder::from(rows.clone()).build().to_string()
}

/// Calls table_to_html: `HtmlTable::from` on tabled's `Builder::from` of the
/// rows, `set_border` with the width, and `to_string`. The text is a
/// function of the cells and the width alone.
#[verifier::external_body]
fn draw_html(rows: &Vec<Vec<String>>, border: usize) -> (r: String)
    ensures
        r@ == html_text(row_views(rows@), border as nat),
{
    let mut table = table_to_html::HtmlTable::from(tabled::builder::Builder::from(rows.clone()));
    table.set_border(border);
    table.to_string()
}

/// Calls `serde_json::to_string` on a string slice, which writes the text
/// between quotes with the escapes of `json_escape`. Writing a string into
/// memory has no way to fail, so the error case never arises.
#[verifier::external_body]
fn json_string(text: &str) -> (r: String)
    ensures
        r@ == json_string_text(text@),
{
    serde_json::to_string(text).unwrap_or_default()
}

/// Puts a text behind what `out` holds.
fn push_text(out: &mut Vec<char>, text: &str)
    ensures
        final(out)@ == old(out)@ + text@,
{
    let mut chars: Vec<char> = chars_of(text);
    out.append(&mut chars);
}

/// The cells of a record's row.
pub fn record_row(record: &Record) -> (row: Vec<String>)
    ensures
        cell_views(row@) == record_fields(record@),
{
    let mut row: Vec<String> = Vec::new();
    row.push(record.path.clone());
    let number: Vec<char> = decimal(record.line_number);
    row.push(string_of(&number));
    row.push(record.short_commit_id.clone());
    row.push(record.author.clone());
    let line: String = match &record.rendered_line {
        Some(text) => text.clone(),
        None => String::new(),
    };
    row.push(line);
    row.push(record.datetime.clone());
    assert(cell_views(row@) =~= record_fields(record@));
    row
}

/// The rows of a table of records, column names first.
pub fn rows_of(records: &Vec<Record>) -> (rows: Vec<Vec<String>>)
    ensures
        row_views(rows@) == table_rows(record_views(records@)),
        rows@.len() == records@.len() + 1,
{
    let mut header: Vec<String> = Vec::new();
    header.push("path".to_owned());
    header.push("lineno".to_owned());
    header.push("commit".to_owned());
    header.push("author".to_owned());
    header.push("line".to_owned());
    header.push("datetime".to_owned());
    assert(cell_views(header@) =~= header_fields());
    let mut rows: Vec<Vec<String>> = Vec::new();
    rows.push(header);
    let ghost views = record_views(records@);
    assert(row_views(rows@) =~= table_rows(views.take(0)));
    let mut i: usize = 0;
    while i < records.len()
        invariant
            0 <= i <= records@.len(),
            views == record_views(records@),
            rows@.len() == i + 1,
            row_views(rows@) == table_rows(views.take(i as int)),
        decreases records@.len() - i,
    {
        let row: Vec<String> = record_row(&records[i]);
        let ghost before = row_views(rows@);
        rows.push(row);
        proof {
            assert(views.take(i + 1).drop_last() =~= views.take(i as int));
            assert(views.take(i + 1).last() == records@[i as int]@);
            assert(row_views(rows@) =~= before.push(cell_views(row@)));
        }
        i += 1;
    }
    assert(views.take(records@.len() as int) =~= views);
    rows
}

/// The records as a grid table.
pub fn grid_table(records: &Vec<Record>) -> (text: String)
    ensures
        text@ == grid_text(table_rows(record_views(records@))),
{
    let rows: Vec<Vec<String>> = rows_of(records);
    draw_grid(&rows)
}

/// The records as an HTML table with a visible border.
pub fn html_table(records: &Vec<Record>) -> (text: String)
    ensures
        text@ == html_text(table_rows(record_views(records@)), 1),
{
    let rows: Vec<Vec<String>> = rows_of(records);
    draw_html(&rows, HTML_BORDER)
}

/// Frames a record's members, each value already written as JSON, as one
/// JSON object. The member `line` is written only where `line` is given.
pub fn json_object(
    path: &str,
    line_number: usize,
    commit: &str,
    author: &str,
    line: Option<&str>,
    datetime: &str,
) -> (text: String)
    ensures
        text@ == json_object_text(
            path@,
            line_number as nat,
            commit@,
            author@,
            match line {
                Some(t) => Some(t@),
                None => None,
            },
            datetime@,
        ),
{
    let mut out: Vec<char> = Vec::new();
    push_text(&mut out, "{\"path\":");
    push_text(&mut out, path);
    push_text(&mut out, ",\"lineno\":");
    let mut number: Vec<char> = decimal(line_number);
    out.append(&mut number);
    push_text(&mut out, ",\"commit\":");
    push_text(&mut out, commit);
    push_text(&mut out, ",\"author\":");
    push_text(&mut out, author);
    match line {
        Some(t) => {
            push_text(&mut out, ",\"line\":");
            push_text(&mut out, t);
        },
        None => {},
    }
    push_text(&mut out, ",\"datetime\":");
    push_text(&mut out, datetime);
    push_text(&mut out, "}");
    assert(out@ =~= json_object_text(
        path@,
        line_number as nat,
        commit@,
        author@,
        match line {
            Some(t) => Some(t@),
            None => None,
        },
        datetime@,
    ));
    string_of(&out)
}

/// A record as one JSON object. The member `line` is left out where the
/// record has no rendered line or an empty one.
pub fn json_line(record: &Record) -> (text: String)
    ensures
        text@ == json_line_text(record@),
{
    let path: String = json_string(record.path.as_str());
    let commit: String = json_string(record.short_commit_id.as_str());
    let author: String = json_string(record.author.as_str());
    let datetime: String = json_string(record.datetime.as_str());
    match &record.rendered_line {
        Some(text) => {
            if text.as_str().is_empty() {
                json_object(
                    path.as_str(),
                    record.line_number,
                    commit.as_str(),
                    author.as_str(),
                    None,
                    datetime.as_str(),
                )
            } else {
                let line: String = json_string(text.as_str());
                json_object(
                    path.as_str(),
                    record.line_number,
                    commit.as_str(),
                    author.as_str(),
                    Some(line.as_str()),
                    datetime.as_str(),
                )
            }
        },
        None => json_object(
            path.as_str(),
            record.line_number,
            commit.as_str(),
            author.as_str(),
            None,
            datetime.as_str(),
        ),
    }
}

/// The records as JSON, one object on a line for each record in order.
pub fn json_lines(records: &Vec<Record>) -> (text: String)
    ensures
        text@ == json_lines_text(record_views(records@)),
{
    let mut out: Vec<char> = Vec::new();
    let ghost views = record_views(records@);
    let mut i: usize = 0;
    assert(out@ =~= json_lines_text(views.take(0)));
    while i < records.len()
        invariant
            0 <= i <= records@.len(),
            views == record_views(records@),
            out@ == json_lines_text(views.take(i as int)),
        decreases records@.len() - i,
    {
        let line: String = json_line(&records[i]);
        let ghost before = out@;
        push_text(&mut out, line.as_str());
        out.push('\n');
        proof {
            assert(views.take(i + 1).drop_last() =~= views.take(i as int));
            assert(views.take(i + 1).last() == records@[i as int]@);
            assert(out@ =~= before + json_line_text(records@[i as int]@).push('\n'));
        }
        i += 1;
    }
    assert(views.take(records@.len() as int) =~= views);
    string_of(&out)
}

/// The records in the chosen format, ready to be written out. The records
/// are not changed and keep their order.
pub fn render(records: &Vec<Record>, format: OutputFormat) -> (text: String)
    ensures
        text@ == rendered_text(record_views(records@), format),
{
    match format {
        OutputFormat::Table => {
            let mut out: Vec<char> = chars_of(grid_table(records).as_str());
            out.push('\n');
            string_of(&out)
        },
        OutputFormat::Html => {
            let mut out: Vec<char> = chars_of(html_table(records).as_str());
            out.push('\n');
            string_of(&out)
        },
        OutputFormat::Json => json_lines(records),
        OutputFormat::Csv => csv_document(records),
    }
}

/// JSON leaves the member `line` out of every record built without line
/// text, and writes it for every record built with a line text that is
/// not empty.
pub proof fn lemma_json_line_member(r: RecordView, raw: Seq<char>, policy: LinePolicy)
    requires
        r.rendered_line == rendered_of(raw, policy),
    ensures
        policy == LinePolicy::Omit ==> shown_line(r) is None,
        policy == LinePolicy::Omit ==> json_line_text(r) == json_object_text(
            json_string_text(r.path),
            r.line_number,
            json_string_text(r.short_commit_id),
            json_string_text(r.author),
            None,
            json_string_text(r.datetime),
        ),
        policy != LinePolicy::Omit && rendered_of(raw, policy).unwrap().len() > 0 ==> shown_line(r)
            == rendered_of(raw, policy),
        shown_line(r) is Some <==> r.rendered_line is Some && r.rendered_line.unwrap().len() > 0,
{
}

} // verus!
