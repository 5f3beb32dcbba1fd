use cve_reconcile::resolver::{split_tokens, Probe, ResolveError};

fn urls(cve_id: &str) -> Vec<String> {
    let mut probe = Probe::begin(cve_id).unwrap();
    let mut asked = Vec::new();
    while let Ok(url) = probe.next_request() {
        asked.push(url);
        assert!(!probe.accepts(404));
        assert!(asked.len() <= 3);
    }
    asked
}

fn shard_url(year: &str, shard: &str, cve_id: &str) -> String {
    format!(
        "https://raw.githubusercontent.com/CVEProject/cvelistV5/refs/heads/main/cves/{}/{}/{}.json",
        year, shard, cve_id
    )
}

#[test]
fn splits_at_every_hyphen() {
    assert_eq!(split_tokens("CVE-2024-0001"), vec!["CVE", "2024", "0001"]);
    assert_eq!(split_tokens("nohyphen"), vec!["nohyphen"]);
    assert_eq!(split_tokens(""), vec![""]);
    assert_eq!(split_tokens("-"), vec!["", ""]);
    assert_eq!(split_tokens("a--b"), vec!["a", "", "b"]);
    assert_eq!(split_tokens("-a-"), vec!["", "a", ""]);
}

#[test]
fn splits_text_beyond_ascii() {
    assert_eq!(split_tokens("é-ü-日本"), vec!["é", "ü", "日本"]);
}

#[test]
fn tokens_rejoin_to_the_text() {
    for text in ["CVE-2024-0001", "", "-", "a--b", "--", "x-y-z-w"] {
        assert_eq!(split_tokens(text).join("-"), text);
    }
}

#[test]
fn two_tokens_are_refused() {
    assert_eq!(Probe::begin("CVE-2024").err(), Some(ResolveError::InvalidIdentifier));
}

#[test]
fn four_tokens_are_refused() {
    assert_eq!(Probe::begin("CVE-2024-0001-1").err(), Some(ResolveError::InvalidIdentifier));
}

#[test]
fn text_without_hyphen_is_refused() {
    assert_eq!(Probe::begin("").err(), Some(ResolveError::InvalidIdentifier));
    assert_eq!(Probe::begin("CVE20240001").err(), Some(ResolveError::InvalidIdentifier));
}

#[test]
fn three_tokens_are_accepted_whatever_they_hold() {
    assert!(Probe::begin("CVE-2024-0001").is_ok());
    assert!(Probe::begin("--").is_ok());
    assert!(Probe::begin("a-b-c").is_ok());
}

#[test]
fn single_character_sequence_is_never_asked_for() {
    let probe = Probe::begin("CVE-2024-1").unwrap();
    assert_eq!(probe.next_request(), Err(ResolveError::RecordNotFound));
    assert!(urls("CVE-2024-1").is_empty());
}

#[test]
fn empty_sequence_is_never_asked_for() {
    let probe = Probe::begin("CVE-2024-").unwrap();
    assert_eq!(probe.next_request(), Err(ResolveError::RecordNotFound));
}

#[test]
fn two_character_sequence_has_one_candidate() {
    assert_eq!(urls("CVE-2024-12"), vec![shard_url("2024", "1xxx", "CVE-2024-12")]);
}

#[test]
fn three_character_sequence_has_two_candidates() {
    assert_eq!(
        urls("CVE-2024-123"),
        vec![shard_url("2024", "1xxx", "CVE-2024-123"), shard_url("2024", "12xxx", "CVE-2024-123")]
    );
}

#[test]
fn four_character_sequence_has_three_candidates() {
    assert_eq!(
        urls("CVE-2024-0001"),
        vec![
            shard_url("2024", "0xxx", "CVE-2024-0001"),
            shard_url("2024", "00xxx", "CVE-2024-0001"),
            shard_url("2024", "000xxx", "CVE-2024-0001"),
        ]
    );
}

#[test]
fn longer_sequences_stop_at_three_candidates() {
    assert_eq!(
        urls("CVE-2023-1234567"),
        vec![
            shard_url("2023", "1xxx", "CVE-2023-1234567"),
            shard_url("2023", "12xxx", "CVE-2023-1234567"),
            shard_url("2023", "123xxx", "CVE-2023-1234567"),
        ]
    );
}

#[test]
fn first_request_is_the_coarsest_shard() {
    let probe = Probe::begin("CVE-2021-44228").unwrap();
    assert_eq!(
        probe.next_request().unwrap(),
        "https://raw.githubusercontent.com/CVEProject/cvelistV5/refs/heads/main/cves/2021/4xxx/CVE-2021-44228.json"
    );
}

#[test]
fn asking_again_repeats_the_request() {
    let probe = Probe::begin("CVE-2021-44228").unwrap();
    assert_eq!(probe.next_request(), probe.next_request());
}

#[test]
fn success_is_accepted_and_ends_the_search() {
    let mut probe = Probe::begin("CVE-2021-44228").unwrap();
    let before = probe.next_request().unwrap();
    assert!(probe.accepts(200));
    assert_eq!(probe.next_request().unwrap(), before);
}

#[test]
fn second_candidate_can_succeed() {
    let mut probe = Probe::begin("CVE-2021-44228").unwrap();
    assert!(!probe.accepts(404));
    assert_eq!(probe.next_request().unwrap(), shard_url("2021", "44xxx", "CVE-2021-44228"));
    assert!(probe.accepts(200));
}

#[test]
fn any_other_status_moves_on() {
    for status in [0u16, 199, 201, 204, 301, 403, 404, 500, 503, u16::MAX] {
        let mut probe = Probe::begin("CVE-2021-44228").unwrap();
        assert!(!probe.accepts(status));
        assert_eq!(probe.next_request().unwrap(), shard_url("2021", "44xxx", "CVE-2021-44228"));
    }
}

#[test]
fn exhausted_search_reports_not_found() {
    let mut probe = Probe::begin("CVE-2021-44228").unwrap();
    assert!(!probe.accepts(404));
    assert!(!probe.accepts(404));
    assert!(!probe.accepts(404));
    assert_eq!(probe.next_request(), Err(ResolveError::RecordNotFound));
}

#[test]
fn nothing_is_accepted_without_a_request() {
    let mut probe = Probe::begin("CVE-2024-1").unwrap();
    assert!(!probe.accepts(200));
    assert_eq!(probe.next_request(), Err(ResolveError::RecordNotFound));
    let mut probe = Probe::begin("CVE-2024-12").unwrap();
    assert!(!probe.accepts(500));
    assert!(!probe.accepts(200));
    assert_eq!(probe.next_request(), Err(ResolveError::RecordNotFound));
}

#[test]
fn shard_counts_characters_not_bytes() {
    assert_eq!(urls("CVE-2024-éü"), vec![shard_url("2024", "éxxx", "CVE-2024-éü")]);
}
