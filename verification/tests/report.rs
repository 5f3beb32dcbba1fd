use cve_reconcile::analysis::ReportHeader;
use cve_reconcile::report::ReportWriter;

fn row(fields: [&str; 8]) -> ReportHeader {
    ReportHeader {
        cve_id: fields[0].to_string(),
        tpa_score: fields[1].to_string(),
        tpa_severity: fields[2].to_string(),
        mismatch_tpa_advisory: fields[3].to_string(),
        mismatch_tpa_cvev5: fields[4].to_string(),
        advisory_content: fields[5].to_string(),
        cve_cna_content: fields[6].to_string(),
        cve_adp_content: fields[7].to_string(),
    }
}

fn fields(row: &ReportHeader) -> Vec<String> {
    vec![
        row.cve_id.clone(),
        row.tpa_score.clone(),
        row.tpa_severity.clone(),
        row.mismatch_tpa_advisory.clone(),
        row.mismatch_tpa_cvev5.clone(),
        row.advisory_content.clone(),
        row.cve_cna_content.clone(),
        row.cve_adp_content.clone(),
    ]
}

fn parse(text: &str) -> Vec<Vec<String>> {
    let mut reader = csv::ReaderBuilder::new()
        .delimiter(b'\t')
        .has_headers(false)
        .from_reader(text.as_bytes());
    reader
        .records()
        .map(|record| record.unwrap().iter().map(|field| field.to_string()).collect())
        .collect()
}

const HEADER: &str = "\"cve_id\"\t\"tpa_score\"\t\"tpa_severity\"\t\"mismatch_tpa_advisory\"\t\"mismatch_tpa_cvev5\"\t\"advisory_content\"\t\"cve_cna_content\"\t\"cve_adp_content\"\n";

fn opened() -> ReportWriter {
    ReportWriter::open()
}

fn lines(rows: &[&str]) -> String {
    let mut text = HEADER.to_string();
    for row in rows {
        text.push_str(row);
    }
    text
}

#[test]
fn open_writes_the_header_once() {
    let writer = ReportWriter::open();
    assert_eq!(writer.text(), HEADER);
    assert_eq!(writer.finish(), HEADER);
}

#[test]
fn every_field_is_quoted() {
    let mut writer = opened();
    writer.write_row(&row(["CVE-2024-0001", "9.8", "critical", "", "Yes", "a", "b", ""]));
    assert_eq!(
        writer.finish(),
        lines(&["\"CVE-2024-0001\"\t\"9.8\"\t\"critical\"\t\"\"\t\"Yes\"\t\"a\"\t\"b\"\t\"\"\n"])
    );
}

#[test]
fn row_of_empty_fields_is_eight_quoted_blanks() {
    let mut writer = opened();
    writer.write_row(&row(["", "", "", "", "", "", "", ""]));
    assert_eq!(
        writer.finish(),
        lines(&["\"\"\t\"\"\t\"\"\t\"\"\t\"\"\t\"\"\t\"\"\t\"\"\n"])
    );
}

#[test]
fn quotes_inside_a_field_are_doubled() {
    let mut writer = opened();
    writer.write_row(&row(["say \"hi\"", "\"", "", "", "", "", "", "\"\""]));
    assert_eq!(
        writer.finish(),
        lines(&["\"say \"\"hi\"\"\"\t\"\"\"\"\t\"\"\t\"\"\t\"\"\t\"\"\t\"\"\t\"\"\"\"\"\"\n"])
    );
}

#[test]
fn separators_inside_a_field_stay_as_they_are() {
    let mut writer = opened();
    writer.write_row(&row(["a\tb", "c | d", "e\nf", "", "", "", "", "g;h"]));
    assert_eq!(
        writer.finish(),
        lines(&["\"a\tb\"\t\"c | d\"\t\"e\nf\"\t\"\"\t\"\"\t\"\"\t\"\"\t\"g;h\"\n"])
    );
}

#[test]
fn rows_follow_the_header_in_order() {
    let mut writer = opened();
    writer.write_row(&row(["CVE-1", "1", "low", "", "", "", "", ""]));
    writer.write_row(&row(["CVE-2", "2", "high", "Yes", "Yes", "x", "y", "z"]));
    assert_eq!(
        writer.finish(),
        lines(&[
            "\"CVE-1\"\t\"1\"\t\"low\"\t\"\"\t\"\"\t\"\"\t\"\"\t\"\"\n",
            "\"CVE-2\"\t\"2\"\t\"high\"\t\"Yes\"\t\"Yes\"\t\"x\"\t\"y\"\t\"z\"\n"
        ])
    );
}

#[test]
fn written_row_parses_back_field_for_field() {
    let fixture = row([
        "CVE-2024-0001",
        "9.8",
        "critical",
        "",
        "Yes",
        "cve;CVE-2024-0001;9.8;critical | csaf;RHSA-2024:0001;N/A;N/A",
        "V3.1;9.1;CRITICAL | V4.0;9.3;CRITICAL",
        "tab\there, quote \" there, pipe | and\nline feed",
    ]);
    let mut writer = opened();
    writer.write_row(&fixture);
    let parsed = parse(writer.text());
    assert_eq!(parsed.len(), 2);
    assert_eq!(
        parsed[0],
        vec![
            "cve_id",
            "tpa_score",
            "tpa_severity",
            "mismatch_tpa_advisory",
            "mismatch_tpa_cvev5",
            "advisory_content",
            "cve_cna_content",
            "cve_adp_content"
        ]
    );
    assert_eq!(parsed[1], fields(&fixture));
}

#[test]
fn text_beyond_ascii_survives() {
    let fixture = row(["CVE-2024-0002", "7", "hoch", "", "", "défaut;日本語;N/A;N/A", "", "“quoted”"]);
    let mut writer = opened();
    writer.write_row(&fixture);
    let parsed = parse(writer.text());
    assert_eq!(parsed.len(), 2);
    assert_eq!(parsed[1], fields(&fixture));
}

#[test]
fn long_field_is_written_whole() {
    let long = "x\"y\t".repeat(5000);
    let fixture = row(["CVE-2024-0003", "1", "low", "", "", &long, "", ""]);
    let mut writer = opened();
    writer.write_row(&fixture);
    let parsed = parse(writer.text());
    assert_eq!(parsed.len(), 2);
    assert_eq!(parsed[1], fields(&fixture));
}
