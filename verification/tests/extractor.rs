use cve_reconcile::analysis::{
    cve_v5_metric, first_score, format_cvss, retrieve_cve_basescore, CvssVersion,
};
use cve_reconcile::cve::{
    ADPcontent, CNAcontent, CVEContainers, CVEListV5, CVSSOther, CVSSv2, Description,
    MetricsWrapper, CVSS,
};
use cve_reconcile::score::Score;

fn score(value: f32) -> Score {
    Score::new(value.to_bits(), value.to_string())
}

fn cvss(value: f32, severity: &str) -> CVSS {
    CVSS {
        baseScore: score(value),
        vectorString: "CVSS:3.1/AV:N/AC:L/PR:N/UI:N/S:U/C:H/I:H/A:H".to_string(),
        baseSeverity: severity.to_string(),
    }
}

fn v2(value: f32) -> Option<MetricsWrapper> {
    Some(MetricsWrapper::CvssV2_0 {
        cvssV2_0: CVSSv2 { base_score: score(value), vector_string: "AV:N/AC:L/Au:N".to_string() },
    })
}

fn v30(value: f32, severity: &str) -> Option<MetricsWrapper> {
    Some(MetricsWrapper::CvssV3_0 { cvssV3_0: cvss(value, severity) })
}

fn v31(value: f32, severity: &str) -> Option<MetricsWrapper> {
    Some(MetricsWrapper::CvssV3_1 { cvssV3_1: cvss(value, severity) })
}

fn v40(value: f32, severity: &str) -> Option<MetricsWrapper> {
    Some(MetricsWrapper::CvssV4_0 { cvssV4_0: cvss(value, severity) })
}

fn other() -> Option<MetricsWrapper> {
    Some(MetricsWrapper::Other { other: CVSSOther { othertype: "ssvc".to_string() } })
}

fn record(
    cna: Option<Vec<Option<MetricsWrapper>>>,
    adp: Option<Vec<Option<Vec<Option<MetricsWrapper>>>>>,
) -> CVEListV5 {
    CVEListV5 {
        containers: CVEContainers {
            cna: CNAcontent {
                descriptions: vec![Description {
                    lang: "en".to_string(),
                    value: "A flaw.".to_string(),
                }],
                metrics: cna,
            },
            adp: adp.map(|blocks| {
                blocks
                    .into_iter()
                    .map(|metrics| ADPcontent { title: Some("CISA ADP".to_string()), metrics })
                    .collect()
            }),
        },
    }
}

fn bits(found: Option<Score>) -> Option<u32> {
    found.map(|s| s.bits)
}

#[test]
fn empty_block_has_no_score() {
    assert!(cve_v5_metric(&vec![]).is_none());
}

#[test]
fn absent_entries_are_discarded() {
    assert!(cve_v5_metric(&vec![None, None]).is_none());
    let found = cve_v5_metric(&vec![None, v31(6.5, "MEDIUM"), None]);
    assert_eq!(bits(found), Some(6.5f32.to_bits()));
}

#[test]
fn v2_and_other_are_never_authoritative() {
    assert!(cve_v5_metric(&vec![v2(10.0), other()]).is_none());
    let found = cve_v5_metric(&vec![v2(10.0), other(), v30(4.3, "MEDIUM")]);
    assert_eq!(bits(found), Some(4.3f32.to_bits()));
}

#[test]
fn v4_wins_wherever_it_stands() {
    let first = cve_v5_metric(&vec![v40(9.3, "CRITICAL"), v31(8.8, "HIGH"), v30(7.1, "HIGH")]);
    let middle = cve_v5_metric(&vec![v31(8.8, "HIGH"), v40(9.3, "CRITICAL"), v30(7.1, "HIGH")]);
    let last = cve_v5_metric(&vec![v30(7.1, "HIGH"), v2(5.0), v31(8.8, "HIGH"), v40(9.3, "CRITICAL")]);
    assert_eq!(bits(first), Some(9.3f32.to_bits()));
    assert_eq!(bits(middle), Some(9.3f32.to_bits()));
    assert_eq!(bits(last), Some(9.3f32.to_bits()));
}

#[test]
fn v31_wins_over_v30() {
    let found = cve_v5_metric(&vec![v30(7.1, "HIGH"), v31(8.8, "HIGH")]);
    assert_eq!(bits(found), Some(8.8f32.to_bits()));
}

#[test]
fn v30_is_the_last_resort() {
    let found = cve_v5_metric(&vec![v2(5.0), v30(7.1, "HIGH"), other()]);
    assert_eq!(bits(found), Some(7.1f32.to_bits()));
}

#[test]
fn first_entry_of_a_version_counts() {
    let found = cve_v5_metric(&vec![v31(5.5, "MEDIUM"), v31(9.9, "CRITICAL")]);
    assert_eq!(bits(found), Some(5.5f32.to_bits()));
}

#[test]
fn extracted_score_keeps_its_text() {
    let found = cve_v5_metric(&vec![v40(9.3, "CRITICAL")]).unwrap();
    assert_eq!(found.text, "9.3");
}

#[test]
fn summary_of_one_entry() {
    assert_eq!(format_cvss(&vec![v31(9.1, "CRITICAL")]), "V3.1;9.1;CRITICAL");
}

#[test]
fn summary_keeps_input_order() {
    let block = vec![v30(7.0, "HIGH"), v40(9.3, "CRITICAL"), v31(8.8, "HIGH")];
    assert_eq!(format_cvss(&block), "V3.0;7;HIGH | V4.0;9.3;CRITICAL | V3.1;8.8;HIGH");
}

#[test]
fn summary_omits_v2_other_and_absent() {
    let block = vec![v2(5.0), None, v31(8.8, "HIGH"), other(), v40(9.3, "CRITICAL"), None];
    assert_eq!(format_cvss(&block), "V3.1;8.8;HIGH | V4.0;9.3;CRITICAL");
}

#[test]
fn summary_without_qualifying_entry_is_empty() {
    assert_eq!(format_cvss(&vec![]), "");
    assert_eq!(format_cvss(&vec![v2(5.0), other(), None]), "");
}

#[test]
fn cna_block_decides_the_base_score() {
    let r = record(Some(vec![v31(9.1, "CRITICAL")]), Some(vec![Some(vec![v40(5.0, "MEDIUM")])]));
    assert_eq!(bits(retrieve_cve_basescore(&r)), Some(9.1f32.to_bits()));
}

#[test]
fn cna_block_without_score_hides_adp() {
    let r = record(Some(vec![v2(7.5)]), Some(vec![Some(vec![v31(5.0, "MEDIUM")])]));
    assert!(retrieve_cve_basescore(&r).is_none());
    let r = record(Some(vec![other(), None]), Some(vec![Some(vec![v31(5.0, "MEDIUM")])]));
    assert!(retrieve_cve_basescore(&r).is_none());
}

#[test]
fn empty_cna_block_defers_to_adp() {
    let r = record(Some(vec![]), Some(vec![Some(vec![v31(8.0, "HIGH")])]));
    assert_eq!(bits(retrieve_cve_basescore(&r)), Some(8.0f32.to_bits()));
    let r = record(Some(vec![]), Some(vec![None, Some(vec![]), Some(vec![v31(5.0, "MEDIUM")])]));
    assert_eq!(bits(retrieve_cve_basescore(&r)), Some(5.0f32.to_bits()));
    assert!(retrieve_cve_basescore(&record(Some(vec![]), None)).is_none());
    assert!(retrieve_cve_basescore(&record(Some(vec![]), Some(vec![]))).is_none());
}

#[test]
fn first_adp_block_with_a_score_is_used() {
    let r = record(
        None,
        Some(vec![None, Some(vec![v2(2.0), other()]), Some(vec![v30(6.1, "MEDIUM")]), Some(vec![
            v40(9.9, "CRITICAL"),
        ])]),
    );
    assert_eq!(bits(retrieve_cve_basescore(&r)), Some(6.1f32.to_bits()));
}

#[test]
fn record_without_metrics_has_no_score() {
    assert!(retrieve_cve_basescore(&record(None, None)).is_none());
    assert!(retrieve_cve_basescore(&record(None, Some(vec![]))).is_none());
    assert!(retrieve_cve_basescore(&record(None, Some(vec![None, Some(vec![])]))).is_none());
}

#[test]
fn first_score_looks_at_one_version_only() {
    let block = vec![v2(1.0), v30(3.0, "LOW"), v31(3.1, "LOW"), v40(4.0, "MEDIUM"), v30(9.0, "CRITICAL")];
    assert_eq!(bits(first_score(&block, CvssVersion::V3_0)), Some(3.0f32.to_bits()));
    assert_eq!(bits(first_score(&block, CvssVersion::V3_1)), Some(3.1f32.to_bits()));
    assert_eq!(bits(first_score(&block, CvssVersion::V4_0)), Some(4.0f32.to_bits()));
    assert!(first_score(&vec![v2(1.0), other(), None], CvssVersion::V3_0).is_none());
}
