//! Comma-separated output: a header row, then one row for each record, with
//! fields quoted where they hold a comma, a quote or a line break.

use crate::model::{record_views, Record, RecordView};
use crate::text::{chars_of, string_of};
use vstd::prelude::*;
use vstd::string::*;

verus! {

/// The decimal digit for a number below ten.
pub open spec fn digit_char(d: nat) -> char {
    if d == 0 {
        '0'
    } else if d == 1 {
        '1'
    } else if d == 2 {
        '2'
    } else if d == 3 {
        '3'
    } else if d == 4 {
        '4'
    } else if d == 5 {
        '5'
    } else if d == 6 {
        '6'
    } else if d == 7 {
        '7'
    } else if d == 8 {
        '8'
    } else {
        '9'
    }
}

/// A number in decimal, without sign or leading zeros.
pub open spec fn decimal_of(n: nat) -> Seq<char>
    decreases n,
{
    if n < 10 {
        seq![digit_char(n)]
    } else {
        decimal_of(n / 10).push(digit_char(n % 10))
    }
}

/// The characters that force a field into quotes.
pub open spec fn is_special(c: char) -> bool {
    c == ',' || c == '"' || c == '\n' || c == '\r'
}

/// A field must be quoted where it holds a special character.
pub open spec fn needs_quotes(field: Seq<char>) -> bool {
    exists|i: int| 0 <= i < field.len() && is_special(#[trigger] field[i])
}

/// The field with each quote written twice.
pub open spec fn quotes_doubled(field: Seq<char>) -> Seq<char>
    decreases field.len(),
{
    if field.len() == 0 {
        seq![]
    } else if field.last() == '"' {
        quotes_doubled(field.drop_last()).push('"').push('"')
    } else {
        quotes_doubled(field.drop_last()).push(field.last())
    }
}

/// A field as it stands in a row: unchanged where nothing in it is
/// special, else between quotes with its own quotes doubled.
pub open spec fn field_text(field: Seq<char>) -> Seq<char> {
    if needs_quotes(field) {
        seq!['"'] + quotes_doubled(field) + seq!['"']
    } else {
        field
    }
}

/// The fields of a row, each as it stands in a row, with commas between.
pub open spec fn fields_joined(fields: Seq<Seq<char>>) -> Seq<char>
    decreases fields.len(),
{
    if fields.len() == 0 {
        seq![]
    } else if fields.len() == 1 {
        field_text(fields[0])
    } else {
        fields_joined(fields.drop_last()).push(',') + field_text(fields.last())
    }
}

/// A row: its fields joined, then a carriage return and a line feed.
pub open spec fn row_text(fields: Seq<Seq<char>>) -> Seq<char> {
    fields_joined(fields).push('\r').push('\n')
}

/// The column names, in the order of a record's fields.
pub open spec fn header_fields() -> Seq<Seq<char>> {
    seq!["path"@, "lineno"@, "commit"@, "author"@, "line"@, "datetime"@]
}

/// The fields of a record's row; a record without rendered line has an
/// empty field in that column.
pub open spec fn record_fields(r: RecordView) -> Seq<Seq<char>> {
    seq![
        r.path,
        decimal_of(r.line_number),
        r.short_commit_id,
        r.author,
        match r.rendered_line {
            Some(text) => text,
            None => seq![],
        },
        r.datetime,
    ]
}

/// The rows of a run of records, one after the other.
pub open spec fn rows_text(records: Seq<RecordView>) -> Seq<char>
    decreases records.len(),
{
    if records.len() == 0 {
        seq![]
    } else {
        rows_text(records.drop_last()) + row_text(record_fields(records.last()))
    }
}

/// The whole document: the header row, then the records' rows in order.
pub open spec fn document_text(records: Seq<RecordView>) -> Seq<char> {
    row_text(header_fields()) + rows_text(records)
}

/// The characters of each of a run of fields.
pub open spec fn field_views(fields: Seq<Vec<char>>) -> Seq<Seq<char>> {
    Seq::new(fields.len(), |i: int| fields[i]@)
}

fn digit(d: usize) -> (c: char)
    requires
        d < 10,
    ensures
        c == digit_char(d as nat),
{
    if d == 0 {
        '0'
    } else if d == 1 {
        '1'
    } else if d == 2 {
        '2'
    } else if d == 3 {
        '3'
    } else if d == 4 {
        '4'
    } else if d == 5 {
        '5'
    } else if d == 6 {
        '6'
    } else if d == 7 {
        '7'
    } else if d == 8 {
        '8'
    } else {
        '9'
    }
}

/// A number in decimal.
pub fn decimal(n: usize) -> (r: Vec<char>)
    ensures
        r@ == decimal_of(n as nat),
    decreases n,
{
    if n < 10 {
        let mut r: Vec<char> = Vec::new();
        r.push(digit(n));
        assert(r@ =~= seq![digit_char(n as nat)]);
        r
    } else {
        let mut r: Vec<char> = decimal(n / 10);
        r.push(digit(n % 10));
        r
    }
}

/// Tells whether a field holds a comma, a quote or a line break.
pub fn has_special(field: &Vec<char>) -> (r: bool)
    ensures
        r == needs_quotes(field@),
{
    let mut i: usize = 0;
    while i < field.len()
        invariant
            0 <= i <= field@.len(),
            forall|k: int| 0 <= k < i ==> !is_special(#[trigger] field@[k]),
        decreases field@.len() - i,
    {
        let c: char = field[i];
        if c == ',' || c == '"' || c == '\n' || c == '\r' {
            return true;
        }
        i += 1;
    }
    false
}

/// A field as it stands in a row.
pub fn quote_field(field: &Vec<char>) -> (r: Vec<char>)
    ensures
        r@ == field_text(field@),
{
    let mut r: Vec<char> = Vec::new();
    if !has_special(field) {
        let mut i: usize = 0;
        while i < field.len()
            invariant
                0 <= i <= field@.len(),
                r@ == field@.take(i as int),
            decreases field@.len() - i,
        {
            r.push(field[i]);
            assert(field@.take(i + 1) =~= field@.take(i as int).push(field@[i as int]));
            i += 1;
        }
        assert(field@.take(field@.len() as int) =~= field@);
        return r;
    }
    r.push('"');
    let mut i: usize = 0;
    assert(r@ =~= seq!['"'] + quotes_doubled(field@.take(0)));
    while i < field.len()
        invariant
            0 <= i <= field@.len(),
            r@ == seq!['"'] + quotes_doubled(field@.take(i as int)),
        decreases field@.len() - i,
    {
        let c: char = field[i];
        proof {
            assert(field@.take(i + 1).drop_last() =~= field@.take(i as int));
            assert(field@.take(i + 1).last() == c);
        }
        if c == '"' {
            r.push('"');
        }
        r.push(c);
        assert(r@ =~= seq!['"'] + quotes_doubled(field@.take(i + 1)));
        i += 1;
    }
    assert(field@.take(field@.len() as int) =~= field@);
    r.push('"');
    assert(r@ =~= seq!['"'] + quotes_doubled(field@) + seq!['"']);
    r
}

/// Writes a row behind what `out` holds.
pub fn push_row(out: &mut Vec<char>, fields: &Vec<Vec<char>>)
    ensures
        final(out)@ == old(out)@ + row_text(field_views(fields@)),
{
    let ghost start = out@;
    let ghost views = field_views(fields@);
    let mut i: usize = 0;
    assert(out@ =~= start + fields_joined(views.take(0)));
    while i < fields.len()
        invariant
            0 <= i <= fields@.len(),
            views == field_views(fields@),
            out@ == start + fields_joined(views.take(i as int)),
        decreases fields@.len() - i,
    {
        if i > 0 {
            out.push(',');
        }
        let mut quoted: Vec<char> = quote_field(&fields[i]);
        out.append(&mut quoted);
        proof {
            assert(views.take(i + 1).drop_last() =~= views.take(i as int));
            assert(views.take(i + 1).last() == fields@[i as int]@);
            if i == 0 {
                assert(views.take(1)[0] == fields@[0]@);
                assert(fields_joined(views.take(0)) =~= Seq::<char>::empty());
            }
            assert(out@ =~= start + fields_joined(views.take(i + 1)));
        }
        i += 1;
    }
    assert(views.take(fields@.len() as int) =~= views);
    out.push('\r');
    out.push('\n');
    assert(out@ =~= start + row_text(views));
}

/// The fields of a record's row.
pub fn fields_of_record(record: &Record) -> (fields: Vec<Vec<char>>)
    ensures
        field_views(fields@) == record_fields(record@),
{
    let mut fields: Vec<Vec<char>> = Vec::new();
    fields.push(chars_of(record.path.as_str()));
    fields.push(decimal(record.line_number));
    fields.push(chars_of(record.short_commit_id.as_str()));
    fields.push(chars_of(record.author.as_str()));
    let line: Vec<char> = match &record.rendered_line {
        Some(text) => chars_of(text.as_str()),
        None => Vec::new(),
    };
    fields.push(line);
    fields.push(chars_of(record.datetime.as_str()));
    assert(field_views(fields@) =~= record_fields(record@));
    fields
}

/// The records as comma-separated values: a header row, then one row for
/// each record in the order given. Every row ends in a carriage return and
/// a line feed.
pub fn csv_document(records: &Vec<Record>) -> (text: String)
    ensures
        text@ == document_text(record_views(records@)),
{
    let mut out: Vec<char> = Vec::new();
    let mut header: Vec<Vec<char>> = Vec::new();
    header.push(chars_of("path"));
    header.push(chars_of("lineno"));
    header.push(chars_of("commit"));
    header.push(chars_of("author"));
    header.push(chars_of("line"));
    header.push(chars_of("datetime"));
    assert(field_views(header@) =~= header_fields());
    push_row(&mut out, &header);
    let ghost views = record_views(records@);
    let ghost head = out@;
    let mut i: usize = 0;
    assert(out@ =~= head + rows_text(views.take(0)));
    while i < records.len()
        invariant
            0 <= i <= records@.len(),
            views == record_views(records@),
            head == row_text(header_fields()),
            out@ == head + rows_text(views.take(i as int)),
        decreases records@.len() - i,
    {
        let fields: Vec<Vec<char>> = fields_of_record(&records[i]);
        push_row(&mut out, &fields);
        proof {
            assert(views.take(i + 1).drop_last() =~= views.take(i as int));
            assert(views.take(i + 1).last() == records@[i as int]@);
            assert(out@ =~= head + rows_text(views.take(i + 1)));
        }
        i += 1;
    }
    assert(views.take(records@.len() as int) =~= views);
    string_of(&out)
}

} // verus!
