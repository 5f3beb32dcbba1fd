//! The report: tab-separated lines in which every field is quoted.
//!
//! The quoting is done by the `csv` crate. What it produces for a record is stated
//! here as [`record_line`]. That statement is taken on trust from the crate's
//! source; the writer is verified against it.

use vstd::prelude::*;
use vstd::string::*;
use crate::analysis::{ReportHeader, SpecReportHeader};
use crate::text::{join, lemma_join_first};

verus! {

/// A field with every double quote in it doubled.
pub open spec fn escaped(field: Seq<char>) -> Seq<char>
    decreases field.len(),
{
    if field.len() == 0 {
        Seq::empty()
    } else if field.last() == '"' {
        escaped(field.drop_last()).push('"').push('"')
    } else {
        escaped(field.drop_last()).push(field.last())
    }
}

/// A field as it stands in the report: escaped, between double quotes.
pub open spec fn quoted(field: Seq<char>) -> Seq<char> {
    seq!['"'] + escaped(field) + seq!['"']
}

/// A record as it stands in the report: its fields quoted, with a tab between
/// each two, and a line feed at the end.
pub open spec fn record_line(fields: Seq<Seq<char>>) -> Seq<char> {
    join(fields.map_values(|field: Seq<char>| quoted(field)), seq!['\t']) + seq!['\n']
}

/// The names of the eight columns, as a row.
pub open spec fn column_names() -> SpecReportHeader {
    SpecReportHeader {
        cve_id: "cve_id"@,
        tpa_score: "tpa_score"@,
        tpa_severity: "tpa_severity"@,
        mismatch_tpa_advisory: "mismatch_tpa_advisory"@,
        mismatch_tpa_cvev5: "mismatch_tpa_cvev5"@,
        advisory_content: "advisory_content"@,
        cve_cna_content: "cve_cna_content"@,
        cve_adp_content: "cve_adp_content"@,
    }
}

/// The line of a row.
pub open spec fn row_line(row: SpecReportHeader) -> Seq<char> {
    record_line(row.fields())
}

/// Encodes one record with `csv::Writer::write_record`, on a writer built by
/// `csv::WriterBuilder` with a tab as delimiter and `QuoteStyle::Always`, takes the
/// bytes written with `csv::Writer::into_inner`, and reads them as text with
/// `String::from_utf8`.
///
/// Claimed of the crate, and not proved here: a line always comes back, and in it
/// every field stands between double quotes, a double quote inside a field is
/// written twice, the fields are separated by the delimiter and the record ends
/// with a line feed. A line always comes back because the writer is fresh and
/// writes into memory: the crate fails only where the underlying writer fails,
/// which a `Vec<u8>` does not, or where a record differs in length from the first,
/// and this record is the first; and what it wrote is the fields' own UTF-8 with
/// quotes, tabs and a line feed between, which is UTF-8 again.
#[verifier::external_body]
fn encode_record(fields: &Vec<String>) -> (line: Option<String>)
    requires
        fields.len() > 0,
    ensures
        line is Some,
        line matches Some(text) ==> text@ == record_line(fields.deep_view()),
{
    let mut writer = csv::WriterBuilder::new()
        .delimiter(b'\t')
        .quote_style(csv::QuoteStyle::Always)
        .from_writer(Vec::new());
    writer.write_record(fields).ok()?;
    String::from_utf8(writer.into_inner().ok()?).ok()
}

fn fields_of(row: &ReportHeader) -> (fields: Vec<String>)
    ensures
        fields.deep_view() == row.deep_view().fields(),
        fields.len() == 8,
{
    let mut fields: Vec<String> = Vec::new();
    fields.push(row.cve_id.clone());
    fields.push(row.tpa_score.clone());
    fields.push(row.tpa_severity.clone());
    fields.push(row.mismatch_tpa_advisory.clone());
    fields.push(row.mismatch_tpa_cvev5.clone());
    fields.push(row.advisory_content.clone());
    fields.push(row.cve_cna_content.clone());
    fields.push(row.cve_adp_content.clone());
    assert(fields.deep_view() =~= row.deep_view().fields());
    fields
}

fn header_row() -> (row: ReportHeader)
    ensures
        row.deep_view() == column_names(),
{
    ReportHeader {
        cve_id: String::from_str("cve_id"),
        tpa_score: String::from_str("tpa_score"),
        tpa_severity: String::from_str("tpa_severity"),
        mismatch_tpa_advisory: String::from_str("mismatch_tpa_advisory"),
        mismatch_tpa_cvev5: String::from_str("mismatch_tpa_cvev5"),
        advisory_content: String::from_str("advisory_content"),
        cve_cna_content: String::from_str("cve_cna_content"),
        cve_adp_content: String::from_str("cve_adp_content"),
    }
}

/// The line of a row, as the encoder gives it.
fn line_of(row: &ReportHeader) -> (line: String)
    ensures
        line@ == row_line(row.deep_view()),
{
    let fields = fields_of(row);
    match encode_record(&fields) {
        Some(line) => line,
        None => String::new(),
    }
}

/// The report as it is being written: the text so far.
#[derive(Debug)]
pub struct ReportWriter {
    text: String,
}

impl View for ReportWriter {
    type V = Seq<char>;

    closed spec fn view(&self) -> Seq<char> {
        self.text@
    }
}

impl ReportWriter {
    /// Opens a report and writes its header line: the names of the eight columns.
    pub fn open() -> (writer: ReportWriter)
        ensures
            writer@ == row_line(column_names()),
    {
        ReportWriter { text: line_of(&header_row()) }
    }

    /// Writes the line of one row at the end of the report.
    pub fn write_row(&mut self, row: &ReportHeader)
        ensures
            final(self)@ == old(self)@ + row_line(row.deep_view()),
    {
        let line = line_of(row);
        self.text.append(line.as_str());
    }

    /// The text of the report so far.
    pub fn text(&self) -> (text: &str)
        ensures
            text@ == self@,
    {
        self.text.as_str()
    }

    /// Closes the report and hands out its text.
    pub fn finish(self) -> (text: String)
        ensures
            text@ == self@,
    {
        self.text
    }
}

/// Reads a quoted field back. `at` is the position after its opening quote; the
/// result is the text of the field, with doubled quotes read as one, and the
/// position after its closing quote.
pub open spec fn read_field(line: Seq<char>, at: int) -> (Seq<char>, int)
    decreases line.len() - at,
{
    if at < 0 || at >= line.len() {
        (Seq::empty(), line.len() as int)
    } else if line[at] != '"' {
        let (text, end) = read_field(line, at + 1);
        (seq![line[at]] + text, end)
    } else if at + 1 < line.len() && line[at + 1] == '"' {
        let (text, end) = read_field(line, at + 2);
        (seq!['"'] + text, end)
    } else {
        (Seq::empty(), at + 1)
    }
}

/// Reads a record back from the position `at` of a line: the quoted fields up to
/// the first that is not followed by a tab.
pub open spec fn read_record(line: Seq<char>, at: int) -> Seq<Seq<char>>
    decreases line.len() - at,
{
    if at < 0 || at >= line.len() || line[at] != '"' {
        Seq::empty()
    } else {
        let (text, end) = read_field(line, at + 1);
        proof {
            lemma_read_field_advances(line, at + 1);
        }
        if end < line.len() && line[end] == '\t' {
            seq![text] + read_record(line, end + 1)
        } else {
            seq![text]
        }
    }
}

/// Reading a field never moves backwards.
pub proof fn lemma_read_field_advances(line: Seq<char>, at: int)
    requires
        0 <= at,
    ensures
        read_field(line, at).1 >= at || read_field(line, at).1 == line.len(),
    decreases line.len() - at,
{
    if at < line.len() {
        if line[at] != '"' {
            lemma_read_field_advances(line, at + 1);
        } else if at + 1 < line.len() && line[at + 1] == '"' {
            lemma_read_field_advances(line, at + 2);
        }
    }
}

/// Escaping goes character by character.
pub proof fn lemma_escaped_first(field: Seq<char>)
    requires
        field.len() > 0,
    ensures
        escaped(field) == escaped(seq![field[0]]) + escaped(field.drop_first()),
        escaped(seq![field[0]]) == if field[0] == '"' {
            seq!['"', '"']
        } else {
            seq![field[0]]
        },
    decreases field.len(),
{
    let one = seq![field[0]];
    assert(one.drop_last() == Seq::<char>::empty());
    assert(escaped(one.drop_last()) == Seq::<char>::empty());
    if field.len() == 1 {
        assert(field == one);
        assert(field.drop_first() == Seq::<char>::empty());
        assert(escaped(one) + Seq::<char>::empty() == escaped(one));
    } else {
        lemma_escaped_first(field.drop_last());
        assert(field.drop_last()[0] == field[0]);
        assert(field.drop_last().drop_first() == field.drop_first().drop_last());
        assert(field.drop_first().last() == field.last());
        let head = escaped(one);
        let middle = escaped(field.drop_first().drop_last());
        if field.last() == '"' {
            assert(escaped(field) == (head + middle).push('"').push('"'));
            assert((head + middle).push('"').push('"') == head + middle.push('"').push('"'));
        } else {
            assert(escaped(field) == (head + middle).push(field.last()));
            assert((head + middle).push(field.last()) == head + middle.push(field.last()));
        }
    }
}

/// A quoted field reads back as it was written: after any text `before`, the
/// escaped field and its closing quote, followed by anything that does not begin
/// with a quote, give the field and the position after the closing quote.
pub proof fn lemma_field_reads_back(before: Seq<char>, field: Seq<char>, after: Seq<char>)
    requires
        after.len() > 0 ==> after[0] != '"',
    ensures
        read_field(before + escaped(field) + seq!['"'] + after, before.len() as int).0 == field,
        read_field(before + escaped(field) + seq!['"'] + after, before.len() as int).1
            == before.len() + escaped(field).len() + 1,
    decreases field.len(),
{
    let line = before + escaped(field) + seq!['"'] + after;
    let at = before.len() as int;
    if field.len() == 0 {
        assert(escaped(field) == Seq::<char>::empty());
        assert(line[at] == '"');
        if at + 1 < line.len() {
            assert(line[at + 1] == after[0]);
        }
    } else {
        lemma_escaped_first(field);
        let head = escaped(seq![field[0]]);
        let rest = field.drop_first();
        lemma_field_reads_back(before + head, rest, after);
        assert(line == (before + head) + escaped(rest) + seq!['"'] + after);
        assert(line[at] == head[0]);
        if field[0] == '"' {
            assert(line[at + 1] == head[1]);
        }
        assert(seq![field[0]] + rest == field);
    }
}

/// The line of a record reads back as the record, field for field, whatever the
/// fields hold: tabs, quotes and line feeds inside a field are part of the field.
/// `before` is any text that precedes the line.
pub proof fn lemma_record_reads_back(before: Seq<char>, fields: Seq<Seq<char>>)
    requires
        fields.len() > 0,
    ensures
        read_record(before + record_line(fields), before.len() as int) == fields,
    decreases fields.len(),
{
    let line = before + record_line(fields);
    let at = before.len() as int;
    let first = fields[0];
    let rest = fields.drop_first();
    let quote = |field: Seq<char>| quoted(field);
    let body = quoted(first);
    let opened = before + seq!['"'];
    assert(fields.map_values(quote) == seq![body] + rest.map_values(quote));
    if rest.len() == 0 {
        let after = seq!['\n'];
        assert(fields.map_values(quote) == seq![body]);
        assert(record_line(fields) == body + after);
        assert(line == opened + escaped(first) + seq!['"'] + after);
        lemma_field_reads_back(opened, first, after);
        let end = (opened.len() + escaped(first).len() + 1) as int;
        assert(line[at] == '"');
        assert(line[end] == '\n');
        assert(seq![first] == fields);
    } else {
        lemma_join_first(body, rest.map_values(quote), seq!['\t']);
        let after = seq!['\t'] + record_line(rest);
        assert(record_line(fields) == body + after);
        assert(line == opened + escaped(first) + seq!['"'] + after);
        lemma_field_reads_back(opened, first, after);
        let end = (opened.len() + escaped(first).len() + 1) as int;
        assert(line[at] == '"');
        assert(line[end] == '\t');
        let consumed = before + body + seq!['\t'];
        assert(line == consumed + record_line(rest));
        assert(consumed.len() == end + 1);
        lemma_record_reads_back(consumed, rest);
        assert(seq![first] + rest == fields);
    }
}

/// A row that was written reads back: the line of a row holds its eight fields,
/// each exactly as it was.
pub proof fn lemma_row_reads_back(report: Seq<char>, row: SpecReportHeader)
    ensures
        read_record(report + row_line(row), report.len() as int) == row.fields(),
{
    lemma_record_reads_back(report, row.fields());
}

} // verus!
