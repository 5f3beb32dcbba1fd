//! The rules of the reconciliation: which base score of a record is
//! authoritative, how metric blocks and advisories are summarised, and how one
//! tracker vulnerability becomes one row of the report.

use vstd::prelude::*;
use vstd::string::*;
use crate::cve::{
    ADPcontent, CVEListV5, MetricsWrapper, SpecADPcontent, SpecCVEListV5, SpecMetric, SpecMetrics,
    CVSS,
};
use crate::score::{Score, SpecScore};
use crate::text::{join, join_with};
use crate::tpa::{Advisories, SpecAdvisory, SpecVulnerability, Vulnerability};

verus! {

/// The CVSS versions whose base score can be authoritative.
#[derive(Clone, Copy, Debug)]
pub enum CvssVersion {
    V3_0,
    V3_1,
    V4_0,
}

/// The base score of an entry, if the entry is present and of the given version.
pub open spec fn score_of_version(entry: Option<SpecMetric>, version: CvssVersion) -> Option<
    SpecScore,
> {
    match (entry, version) {
        (Some(SpecMetric::V3_0(c)), CvssVersion::V3_0) => Some(c.base_score),
        (Some(SpecMetric::V3_1(c)), CvssVersion::V3_1) => Some(c.base_score),
        (Some(SpecMetric::V4_0(c)), CvssVersion::V4_0) => Some(c.base_score),
        _ => None,
    }
}

/// The base score of the first entry of the given version, if the block has one.
pub open spec fn first_of_version(metrics: SpecMetrics, version: CvssVersion) -> Option<SpecScore>
    decreases metrics.len(),
{
    if metrics.len() == 0 {
        None
    } else {
        match score_of_version(metrics[0], version) {
            Some(score) => Some(score),
            None => first_of_version(metrics.drop_first(), version),
        }
    }
}

/// The authoritative base score of a metrics block: that of its first v4.0 entry;
/// without a v4.0 entry, that of its first v3.1 entry; without either, that of its
/// first v3.0 entry. Absent, v2.0 and unrecognised entries never count.
pub open spec fn authoritative_score(metrics: SpecMetrics) -> Option<SpecScore> {
    match first_of_version(metrics, CvssVersion::V4_0) {
        Some(score) => Some(score),
        None => match first_of_version(metrics, CvssVersion::V3_1) {
            Some(score) => Some(score),
            None => first_of_version(metrics, CvssVersion::V3_0),
        },
    }
}

fn entry_score(entry: &Option<MetricsWrapper>, version: CvssVersion) -> (r: Option<Score>)
    ensures
        r.deep_view() == score_of_version(entry.deep_view(), version),
{
    match entry {
        Some(MetricsWrapper::CvssV3_0 { cvssV3_0 }) => match version {
            CvssVersion::V3_0 => Some(cvssV3_0.baseScore.clone()),
            _ => None,
        },
        Some(MetricsWrapper::CvssV3_1 { cvssV3_1 }) => match version {
            CvssVersion::V3_1 => Some(cvssV3_1.baseScore.clone()),
            _ => None,
        },
        Some(MetricsWrapper::CvssV4_0 { cvssV4_0 }) => match version {
            CvssVersion::V4_0 => Some(cvssV4_0.baseScore.clone()),
            _ => None,
        },
        _ => None,
    }
}

/// The base score of the first entry of `version` in the block.
pub fn first_score(metrics: &Vec<Option<MetricsWrapper>>, version: CvssVersion) -> (r: Option<
    Score,
>)
    ensures
        r.deep_view() == first_of_version(metrics.deep_view(), version),
{
    let ghost all = metrics.deep_view();
    let mut i: usize = 0;
    proof {
        assert(all.skip(0) == all);
    }
    while i < metrics.len()
        invariant
            i <= metrics.len(),
            all == metrics.deep_view(),
            first_of_version(all, version) == first_of_version(all.skip(i as int), version),
        decreases metrics.len() - i,
    {
        proof {
            assert(all.skip(i as int)[0] == metrics[i as int].deep_view());
            assert(all.skip(i as int).drop_first() == all.skip(i + 1));
        }
        let found = entry_score(&metrics[i], version);
        if found.is_some() {
            return found;
        }
        i = i + 1;
    }
    None
}

/// Picks the authoritative base score of a metrics block.
///
/// CVSS v4.0 takes precedence over v3.1, and v3.1 over v3.0, wherever the entries
/// stand in the block; among entries of one version the first counts. `None` means
/// the block holds no entry of these three versions.
pub fn cve_v5_metric(metric_wrapper: &Vec<Option<MetricsWrapper>>) -> (r: Option<Score>)
    ensures
        r.deep_view() == authoritative_score(metric_wrapper.deep_view()),
{
    let v4 = first_score(metric_wrapper, CvssVersion::V4_0);
    if v4.is_some() {
        return v4;
    }
    let v31 = first_score(metric_wrapper, CvssVersion::V3_1);
    if v31.is_some() {
        return v31;
    }
    first_score(metric_wrapper, CvssVersion::V3_0)
}

/// Whether an entry is present and holds a metric of the given version.
pub open spec fn is_version(entry: Option<SpecMetric>, version: CvssVersion) -> bool {
    score_of_version(entry, version) is Some
}

/// `first_of_version` finds the earliest entry of the version: it yields the score
/// at the least index that holds the version, and nothing exactly when no index does.
pub proof fn lemma_first_of_version(metrics: SpecMetrics, version: CvssVersion)
    ensures
        first_of_version(metrics, version) is Some <==> exists|i: int|
            0 <= i < metrics.len() && is_version(#[trigger] metrics[i], version),
        first_of_version(metrics, version) is Some ==> exists|i: int|
            0 <= i < metrics.len() && score_of_version(#[trigger] metrics[i], version)
                == first_of_version(metrics, version) && forall|j: int|
                0 <= j < i ==> !is_version(#[trigger] metrics[j], version),
    decreases metrics.len(),
{
    if metrics.len() > 0 {
        let rest = metrics.drop_first();
        lemma_first_of_version(rest, version);
        assert forall|i: int| 0 <= i < rest.len() implies rest[i] == metrics[i + 1] by {}
        if is_version(metrics[0], version) {
            assert(score_of_version(metrics[0], version) == first_of_version(metrics, version));
        } else {
            if first_of_version(rest, version) is Some {
                let i = choose|i: int|
                    0 <= i < rest.len() && score_of_version(#[trigger] rest[i], version)
                        == first_of_version(rest, version) && forall|j: int|
                        0 <= j < i ==> !is_version(#[trigger] rest[j], version);
                assert(metrics[i + 1] == rest[i]);
                assert forall|j: int| 0 <= j < i + 1 implies !is_version(
                    #[trigger] metrics[j],
                    version,
                ) by {
                    if j > 0 {
                        assert(metrics[j] == rest[j - 1]);
                    }
                }
                assert(score_of_version(metrics[i + 1], version) == first_of_version(
                    metrics,
                    version,
                ));
            }
            if exists|i: int| 0 <= i < metrics.len() && is_version(#[trigger] metrics[i], version) {
                let i = choose|i: int|
                    0 <= i < metrics.len() && is_version(#[trigger] metrics[i], version);
                assert(rest[i - 1] == metrics[i]);
            }
        }
    }
}

/// An authoritative score is always the base score of a v4.0, v3.1 or v3.0 entry
/// of the block: no v2.0 entry and no unrecognised entry ever supplies it.
pub proof fn lemma_score_from_recognised_entry(metrics: SpecMetrics)
    requires
        authoritative_score(metrics) is Some,
    ensures
        exists|i: int, version: CvssVersion|
            0 <= i < metrics.len() && #[trigger] score_of_version(metrics[i], version)
                == authoritative_score(metrics) && !(metrics[i] matches Some(SpecMetric::V2_0(_)))
                && !(metrics[i] matches Some(SpecMetric::Other(_))),
{
    let version = if first_of_version(metrics, CvssVersion::V4_0) is Some {
        CvssVersion::V4_0
    } else if first_of_version(metrics, CvssVersion::V3_1) is Some {
        CvssVersion::V3_1
    } else {
        CvssVersion::V3_0
    };
    lemma_first_of_version(metrics, version);
    let i = choose|i: int|
        0 <= i < metrics.len() && score_of_version(#[trigger] metrics[i], version)
            == first_of_version(metrics, version);
    assert(score_of_version(metrics[i], version) == authoritative_score(metrics));
}

/// Where a block holds a v4.0 entry, at whatever position, the authoritative
/// score is the base score of its earliest v4.0 entry.
pub proof fn lemma_v4_takes_precedence(metrics: SpecMetrics, at: int)
    requires
        0 <= at < metrics.len(),
        metrics[at] matches Some(SpecMetric::V4_0(_)),
    ensures
        authoritative_score(metrics) is Some,
        authoritative_score(metrics) == first_of_version(metrics, CvssVersion::V4_0),
        exists|i: int|
            0 <= i <= at && (#[trigger] metrics[i] matches Some(SpecMetric::V4_0(c))
                && authoritative_score(metrics) == Some(c.base_score)),
{
    lemma_first_of_version(metrics, CvssVersion::V4_0);
    assert(is_version(metrics[at], CvssVersion::V4_0));
    let i = choose|i: int|
        0 <= i < metrics.len() && score_of_version(#[trigger] metrics[i], CvssVersion::V4_0)
            == first_of_version(metrics, CvssVersion::V4_0) && forall|j: int|
            0 <= j < i ==> !is_version(#[trigger] metrics[j], CvssVersion::V4_0);
    if i > at {
        assert(!is_version(metrics[at], CvssVersion::V4_0));
    }
    assert(metrics[i] matches Some(SpecMetric::V4_0(c)) && authoritative_score(metrics) == Some(
        c.base_score,
    ));
}

/// The order of the entries does not matter to a block whose v4.0 entries agree:
/// if every v4.0 entry of `metrics` carries the score `score` and there is at least
/// one, then every rearrangement of the block has `score` as its authoritative score.
pub proof fn lemma_v4_score_ignores_order(
    metrics: SpecMetrics,
    rearranged: SpecMetrics,
    score: SpecScore,
)
    requires
        metrics.to_multiset() == rearranged.to_multiset(),
        exists|i: int| 0 <= i < metrics.len() && is_version(#[trigger] metrics[i], CvssVersion::V4_0),
        forall|i: int|
            0 <= i < metrics.len() && is_version(#[trigger] metrics[i], CvssVersion::V4_0)
                ==> score_of_version(metrics[i], CvssVersion::V4_0) == Some(score),
    ensures
        authoritative_score(metrics) == Some(score),
        authoritative_score(rearranged) == Some(score),
{
    metrics.to_multiset_ensures();
    rearranged.to_multiset_ensures();
    let v4 = CvssVersion::V4_0;
    lemma_first_of_version(metrics, v4);
    lemma_first_of_version(rearranged, v4);
    let here = choose|i: int| 0 <= i < metrics.len() && is_version(#[trigger] metrics[i], v4);
    assert(metrics.contains(metrics[here]));
    assert(rearranged.to_multiset().count(metrics[here]) > 0);
    assert(rearranged.contains(metrics[here]));
    let there = choose|j: int| 0 <= j < rearranged.len() && rearranged[j] == metrics[here];
    assert(is_version(rearranged[there], v4));
    let found = choose|j: int|
        0 <= j < rearranged.len() && score_of_version(#[trigger] rearranged[j], v4)
            == first_of_version(rearranged, v4);
    assert(rearranged.contains(rearranged[found]));
    assert(metrics.to_multiset().count(rearranged[found]) > 0);
    assert(metrics.contains(rearranged[found]));
    let back = choose|i: int| 0 <= i < metrics.len() && metrics[i] == rearranged[found];
    assert(is_version(metrics[back], v4));
}

/// The summary entry of a metric: its version tag, base score and severity,
/// separated by semicolons.
pub open spec fn tagged_entry(tag: Seq<char>, score: SpecScore, severity: Seq<char>) -> Seq<char> {
    tag + score.text + ";"@ + severity
}

/// The summary entry of one entry of a metrics block: v3.0, v3.1 and v4.0 metrics
/// have one; absent, v2.0 and unrecognised entries have none.
pub open spec fn summary_entry(entry: Option<SpecMetric>) -> Option<Seq<char>> {
    match entry {
        Some(SpecMetric::V4_0(c)) => Some(tagged_entry("V4.0;"@, c.base_score, c.base_severity)),
        Some(SpecMetric::V3_1(c)) => Some(tagged_entry("V3.1;"@, c.base_score, c.base_severity)),
        Some(SpecMetric::V3_0(c)) => Some(tagged_entry("V3.0;"@, c.base_score, c.base_severity)),
        _ => None,
    }
}

/// The summary entries of a metrics block, in the order of the block.
pub open spec fn summary_entries(metrics: SpecMetrics) -> Seq<Seq<char>>
    decreases metrics.len(),
{
    if metrics.len() == 0 {
        Seq::empty()
    } else {
        let before = summary_entries(metrics.drop_last());
        match summary_entry(metrics.last()) {
            Some(entry) => before.push(entry),
            None => before,
        }
    }
}

/// The summary of a metrics block: its entries joined with `" | "`.
pub open spec fn cvss_summary(metrics: SpecMetrics) -> Seq<char> {
    join(summary_entries(metrics), " | "@)
}

fn render_tagged(tag: &str, cvss: &CVSS) -> (out: String)
    ensures
        out@ == tagged_entry(tag@, cvss.deep_view().base_score, cvss.deep_view().base_severity),
{
    let mut out = String::from_str(tag);
    out.append(cvss.baseScore.text.as_str());
    out.append(";");
    out.append(cvss.baseSeverity.as_str());
    out
}

fn render_entry(entry: &Option<MetricsWrapper>) -> (out: Option<String>)
    ensures
        out.deep_view() == summary_entry(entry.deep_view()),
{
    match entry {
        Some(MetricsWrapper::CvssV4_0 { cvssV4_0 }) => Some(render_tagged("V4.0;", cvssV4_0)),
        Some(MetricsWrapper::CvssV3_1 { cvssV3_1 }) => Some(render_tagged("V3.1;", cvssV3_1)),
        Some(MetricsWrapper::CvssV3_0 { cvssV3_0 }) => Some(render_tagged("V3.0;", cvssV3_0)),
        _ => None,
    }
}

/// Renders a metrics block for the report.
///
/// Every v3.0, v3.1 and v4.0 entry becomes `<version>;<baseScore>;<baseSeverity>`;
/// the entries keep the order of the block and are joined with `" | "`. Absent,
/// v2.0 and unrecognised entries are left out; a block without a qualifying entry
/// renders as the empty text.
pub fn format_cvss(metric_wrapper: &Vec<Option<MetricsWrapper>>) -> (out: String)
    ensures
        out@ == cvss_summary(metric_wrapper.deep_view()),
{
    let ghost all = metric_wrapper.deep_view();
    let mut entries: Vec<String> = Vec::new();
    let mut i: usize = 0;
    while i < metric_wrapper.len()
        invariant
            i <= metric_wrapper.len(),
            all == metric_wrapper.deep_view(),
            entries.deep_view() == summary_entries(all.take(i as int)),
        decreases metric_wrapper.len() - i,
    {
        proof {
            assert(all.take(i + 1).drop_last() == all.take(i as int));
            assert(all.take(i + 1).last() == metric_wrapper[i as int].deep_view());
        }
        let ghost before = entries.deep_view();
        match render_entry(&metric_wrapper[i]) {
            Some(entry) => {
                entries.push(entry);
                assert(entries.deep_view() == before.push(entry@));
            },
            None => {},
        }
        i = i + 1;
    }
    proof {
        assert(all.take(metric_wrapper.len() as int) == all);
    }
    join_with(&entries, " | ")
}

/// The score of the first ADP container whose metrics block yields one.
pub open spec fn first_adp_score(adp: Seq<SpecADPcontent>) -> Option<SpecScore>
    decreases adp.len(),
{
    if adp.len() == 0 {
        None
    } else {
        let here = match adp[0].metrics {
            Some(metrics) => authoritative_score(metrics),
            None => None,
        };
        match here {
            Some(score) => Some(score),
            None => first_adp_score(adp.drop_first()),
        }
    }
}

/// Whether the CNA container of a record has any metrics: a metrics block that
/// holds at least one entry. A block that is present but empty has none.
pub open spec fn cna_has_metrics(record: SpecCVEListV5) -> bool {
    record.containers.cna.metrics matches Some(metrics) && metrics.len() > 0
}

/// The authoritative base score of a record: where the CNA container has any
/// metrics, the score of its block and nothing else; otherwise the score of the
/// first ADP container that yields one.
pub open spec fn base_score(record: SpecCVEListV5) -> Option<SpecScore> {
    if cna_has_metrics(record) {
        authoritative_score(record.containers.cna.metrics->0)
    } else {
        match record.containers.adp {
            Some(adp) => first_adp_score(adp),
            None => None,
        }
    }
}

fn adp_score(adp: &Vec<ADPcontent>) -> (r: Option<Score>)
    ensures
        r.deep_view() == first_adp_score(adp.deep_view()),
{
    let ghost all = adp.deep_view();
    let mut i: usize = 0;
    proof {
        assert(all.skip(0) == all);
    }
    while i < adp.len()
        invariant
            i <= adp.len(),
            all == adp.deep_view(),
            first_adp_score(all) == first_adp_score(all.skip(i as int)),
        decreases adp.len() - i,
    {
        proof {
            assert(all.skip(i as int)[0] == adp[i as int].deep_view());
            assert(all.skip(i as int).drop_first() == all.skip(i + 1));
        }
        match &adp[i].metrics {
            Some(metrics) => {
                let found = cve_v5_metric(metrics);
                if found.is_some() {
                    return found;
                }
            },
            None => {},
        }
        i = i + 1;
    }
    None
}

/// The authoritative base score of a resolved record.
///
/// A CNA metrics block that holds at least one entry decides alone, even if none
/// of its entries yields a score. Where the CNA container has no metrics block, or
/// an empty one, the ADP containers are asked in order and the first score found
/// is returned. `None` means the record carries no score, which is no error.
pub fn retrieve_cve_basescore(record: &CVEListV5) -> (r: Option<Score>)
    ensures
        r.deep_view() == base_score(record.deep_view()),
{
    match &record.containers.cna.metrics {
        Some(metrics) if metrics.len() > 0 => cve_v5_metric(metrics),
        _ => match &record.containers.adp {
            Some(adp) => adp_score(adp),
            None => None,
        },
    }
}

/// A CNA metrics block that is present but empty does not hide the ADP
/// containers: the record's score is then the first that an ADP container yields.
pub proof fn lemma_empty_cna_block_defers_to_adp(record: SpecCVEListV5)
    requires
        record.containers.cna.metrics matches Some(metrics) && metrics.len() == 0,
    ensures
        base_score(record) == match record.containers.adp {
            Some(adp) => first_adp_score(adp),
            None => None,
        },
{
}

/// A CNA metrics block that holds an entry decides alone, whatever the ADP
/// containers hold, even where none of its entries yields a score.
pub proof fn lemma_cna_metrics_decide_alone(record: SpecCVEListV5)
    requires
        cna_has_metrics(record),
    ensures
        base_score(record) == authoritative_score(record.containers.cna.metrics->0),
{
}

/// One row of the report: the outcome of reconciling one tracker vulnerability.
#[derive(Debug)]
pub struct ReportHeader {
    pub cve_id: String,
    pub tpa_score: String,
    pub tpa_severity: String,
    pub mismatch_tpa_advisory: String,
    pub mismatch_tpa_cvev5: String,
    pub advisory_content: String,
    pub cve_cna_content: String,
    pub cve_adp_content: String,
}

/// Model of [`ReportHeader`].
pub struct SpecReportHeader {
    pub cve_id: Seq<char>,
    pub tpa_score: Seq<char>,
    pub tpa_severity: Seq<char>,
    pub mismatch_tpa_advisory: Seq<char>,
    pub mismatch_tpa_cvev5: Seq<char>,
    pub advisory_content: Seq<char>,
    pub cve_cna_content: Seq<char>,
    pub cve_adp_content: Seq<char>,
}

impl DeepView for ReportHeader {
    type V = SpecReportHeader;

    open spec fn deep_view(&self) -> SpecReportHeader {
        SpecReportHeader {
            cve_id: self.cve_id@,
            tpa_score: self.tpa_score@,
            tpa_severity: self.tpa_severity@,
            mismatch_tpa_advisory: self.mismatch_tpa_advisory@,
            mismatch_tpa_cvev5: self.mismatch_tpa_cvev5@,
            advisory_content: self.advisory_content@,
            cve_cna_content: self.cve_cna_content@,
            cve_adp_content: self.cve_adp_content@,
        }
    }
}

impl SpecReportHeader {
    /// The eight fields in the order of the report's columns.
    pub open spec fn fields(self) -> Seq<Seq<char>> {
        seq![
            self.cve_id,
            self.tpa_score,
            self.tpa_severity,
            self.mismatch_tpa_advisory,
            self.mismatch_tpa_cvev5,
            self.advisory_content,
            self.cve_cna_content,
            self.cve_adp_content,
        ]
    }
}

/// Whether some advisory that carries a score differs from the average. An
/// advisory without a score never counts.
pub open spec fn advisory_mismatch(average: SpecScore, advisories: Seq<SpecAdvisory>) -> bool {
    exists|i: int|
        0 <= i < advisories.len() && ((#[trigger] advisories[i]).score matches Some(score)
            && score.differs(average))
}

/// Whether the record has an authoritative base score that differs from the average.
pub open spec fn upstream_mismatch(average: SpecScore, record: Option<SpecCVEListV5>) -> bool {
    record matches Some(r) && (base_score(r) matches Some(score) && average.differs(score))
}

/// A mismatch flag as the report shows it: `Yes`, or nothing.
pub open spec fn flag(raised: bool) -> Seq<char> {
    if raised {
        "Yes"@
    } else {
        Seq::empty()
    }
}

/// The summary entry of an advisory: type, identifier, score and severity,
/// separated by semicolons, with `N/A` for a score or severity that is absent.
pub open spec fn advisory_entry(advisory: SpecAdvisory) -> Seq<char> {
    advisory.labels.adv_type + ";"@ + advisory.identifier + ";"@ + (match advisory.score {
        Some(score) => score.text,
        None => "N/A"@,
    }) + ";"@ + (match advisory.severity {
        Some(severity) => severity,
        None => "N/A"@,
    })
}

/// The summary of the advisories: one entry each, in order, joined with `" | "`.
pub open spec fn advisory_summary(advisories: Seq<SpecAdvisory>) -> Seq<char> {
    join(advisories.map_values(|a: SpecAdvisory| advisory_entry(a)), " | "@)
}

/// The summary of the last ADP container that has a metrics block; empty where
/// none has one.
pub open spec fn adp_summary(adp: Seq<SpecADPcontent>) -> Seq<char>
    decreases adp.len(),
{
    if adp.len() == 0 {
        Seq::empty()
    } else {
        match adp.last().metrics {
            Some(metrics) => cvss_summary(metrics),
            None => adp_summary(adp.drop_last()),
        }
    }
}

/// The summary of the CNA metrics block of a record; empty without a record or
/// without a block.
pub open spec fn cna_content(record: Option<SpecCVEListV5>) -> Seq<char> {
    match record {
        Some(r) => match r.containers.cna.metrics {
            Some(metrics) => cvss_summary(metrics),
            None => Seq::empty(),
        },
        None => Seq::empty(),
    }
}

/// The summary of the ADP containers of a record; empty without a record or
/// without ADP containers.
pub open spec fn adp_content(record: Option<SpecCVEListV5>) -> Seq<char> {
    match record {
        Some(r) => match r.containers.adp {
            Some(adp) => adp_summary(adp),
            None => Seq::empty(),
        },
        None => Seq::empty(),
    }
}

/// The record that a vulnerability is compared against: the one resolved for it
/// where the tracker reports an average score, none where it does not.
pub open spec fn consulted(
    vulnerability: SpecVulnerability,
    upstream: Option<SpecCVEListV5>,
) -> Option<SpecCVEListV5> {
    if vulnerability.average_score is Some {
        upstream
    } else {
        None
    }
}

/// The row that reconciling `vulnerability` against `upstream` yields.
pub open spec fn report_row(
    vulnerability: SpecVulnerability,
    upstream: Option<SpecCVEListV5>,
) -> SpecReportHeader {
    let record = consulted(vulnerability, upstream);
    SpecReportHeader {
        cve_id: vulnerability.identifier,
        tpa_score: match vulnerability.average_score {
            Some(score) => score.text,
            None => "0"@,
        },
        tpa_severity: match vulnerability.average_severity {
            Some(severity) => severity,
            None => "UNKNOWN"@,
        },
        mismatch_tpa_advisory: flag(
            vulnerability.average_score matches Some(average) && advisory_mismatch(
                average,
                vulnerability.advisories,
            ),
        ),
        mismatch_tpa_cvev5: flag(
            vulnerability.average_score matches Some(average) && upstream_mismatch(average, record),
        ),
        advisory_content: advisory_summary(vulnerability.advisories),
        cve_cna_content: cna_content(record),
        cve_adp_content: adp_content(record),
    }
}

/// Whether any advisory with a score differs from `average`.
pub fn advisories_differ(average: &Score, advisories: &Vec<Advisories>) -> (r: bool)
    ensures
        r == advisory_mismatch(average.deep_view(), advisories.deep_view()),
{
    let ghost all = advisories.deep_view();
    let mut i: usize = 0;
    while i < advisories.len()
        invariant
            i <= advisories.len(),
            all == advisories.deep_view(),
            forall|j: int|
                0 <= j < i ==> !((#[trigger] all[j]).score matches Some(score) && score.differs(
                    average.deep_view(),
                )),
        decreases advisories.len() - i,
    {
        assert(all[i as int] == advisories[i as int].deep_view());
        match &advisories[i].score {
            Some(score) => {
                if score.differs(average) {
                    return true;
                }
            },
            None => {},
        }
        i = i + 1;
    }
    false
}

/// Whether the record's authoritative base score is present and differs from `average`.
pub fn upstream_differs(average: &Score, record: Option<&CVEListV5>) -> (r: bool)
    ensures
        r == upstream_mismatch(average.deep_view(), record.deep_view()),
{
    match record {
        Some(r) => match retrieve_cve_basescore(r) {
            Some(score) => average.differs(&score),
            None => false,
        },
        None => false,
    }
}

fn render_flag(raised: bool) -> (out: String)
    ensures
        out@ == flag(raised),
{
    if raised {
        String::from_str("Yes")
    } else {
        String::new()
    }
}

fn render_advisory(advisory: &Advisories) -> (out: String)
    ensures
        out@ == advisory_entry(advisory.deep_view()),
{
    let mut out = advisory.labels.adv_type.clone();
    out.append(";");
    out.append(advisory.identifier.as_str());
    out.append(";");
    match &advisory.score {
        Some(score) => out.append(score.text.as_str()),
        None => out.append("N/A"),
    }
    out.append(";");
    match &advisory.severity {
        Some(severity) => out.append(severity.as_str()),
        None => out.append("N/A"),
    }
    out
}

/// Renders the advisories of a vulnerability for the report: for each advisory
/// `<type>;<identifier>;<score>;<severity>`, in order, joined with `" | "`.
pub fn summarize_advisories(advisories: &Vec<Advisories>) -> (out: String)
    ensures
        out@ == advisory_summary(advisories.deep_view()),
{
    let ghost all = advisories.deep_view();
    let mut entries: Vec<String> = Vec::new();
    let mut i: usize = 0;
    while i < advisories.len()
        invariant
            i <= advisories.len(),
            all == advisories.deep_view(),
            entries.len() == i,
            forall|j: int| 0 <= j < i ==> (#[trigger] entries[j])@ == advisory_entry(all[j]),
        decreases advisories.len() - i,
    {
        assert(all[i as int] == advisories[i as int].deep_view());
        entries.push(render_advisory(&advisories[i]));
        i = i + 1;
    }
    proof {
        assert(entries.deep_view() =~= all.map_values(|a: SpecAdvisory| advisory_entry(a)));
    }
    join_with(&entries, " | ")
}

fn summarize_adp(adp: &Vec<ADPcontent>) -> (out: String)
    ensures
        out@ == adp_summary(adp.deep_view()),
{
    let ghost all = adp.deep_view();
    let mut i: usize = adp.len();
    proof {
        assert(all.take(i as int) == all);
    }
    while i > 0
        invariant
            i <= adp.len(),
            all == adp.deep_view(),
            adp_summary(all) == adp_summary(all.take(i as int)),
        decreases i,
    {
        proof {
            assert(all.take(i as int).last() == adp[i - 1].deep_view());
            assert(all.take(i as int).drop_last() == all.take(i - 1));
        }
        match &adp[i - 1].metrics {
            Some(metrics) => {
                return format_cvss(metrics);
            },
            None => {},
        }
        i = i - 1;
    }
    String::new()
}

fn summarize_cna(record: Option<&CVEListV5>) -> (out: String)
    ensures
        out@ == cna_content(record.deep_view()),
{
    match record {
        Some(r) => match &r.containers.cna.metrics {
            Some(metrics) => format_cvss(metrics),
            None => String::new(),
        },
        None => String::new(),
    }
}

fn summarize_adp_of(record: Option<&CVEListV5>) -> (out: String)
    ensures
        out@ == adp_content(record.deep_view()),
{
    match record {
        Some(r) => match &r.containers.adp {
            Some(adp) => summarize_adp(adp),
            None => String::new(),
        },
        None => String::new(),
    }
}

/// Reconciles one tracker vulnerability with the record resolved for it and
/// builds its row.
///
/// Where the tracker reports no average score nothing is compared: both flags stay
/// empty, `upstream` is not looked at, and the row holds the tracker's fields and
/// the advisory summary. With an average score, the advisory flag is raised if an
/// advisory that carries a score differs from the average, and the upstream flag
/// if the record's authoritative base score is present and differs from it. There
/// is no tolerance: the scores are compared as numbers, exactly. `upstream` is
/// `None` where no record could be resolved; the score is then taken as absent.
pub fn reconcile(vulnerability: &Vulnerability, upstream: Option<&CVEListV5>) -> (row: ReportHeader)
    ensures
        row.deep_view() == report_row(vulnerability.deep_view(), upstream.deep_view()),
{
    let advisory_content = summarize_advisories(&vulnerability.advisories);
    let tpa_severity = match &vulnerability.average_severity {
        Some(severity) => severity.clone(),
        None => String::from_str("UNKNOWN"),
    };
    match &vulnerability.average_score {
        Some(average) => ReportHeader {
            cve_id: vulnerability.identifier.clone(),
            tpa_score: average.text.clone(),
            tpa_severity,
            mismatch_tpa_advisory: render_flag(advisories_differ(average, &vulnerability.advisories)),
            mismatch_tpa_cvev5: render_flag(upstream_differs(average, upstream)),
            advisory_content,
            cve_cna_content: summarize_cna(upstream),
            cve_adp_content: summarize_adp_of(upstream),
        },
        None => ReportHeader {
            cve_id: vulnerability.identifier.clone(),
            tpa_score: String::from_str("0"),
            tpa_severity,
            mismatch_tpa_advisory: String::new(),
            mismatch_tpa_cvev5: String::new(),
            advisory_content,
            cve_cna_content: String::new(),
            cve_adp_content: String::new(),
        },
    }
}

/// A vulnerability without an average score yields a row whose two mismatch flags
/// are empty, and whose record summaries are empty, whatever its advisories hold
/// and whatever record is offered.
pub proof fn lemma_no_average_no_flags(
    vulnerability: SpecVulnerability,
    upstream: Option<SpecCVEListV5>,
)
    requires
        vulnerability.average_score is None,
    ensures
        report_row(vulnerability, upstream).mismatch_tpa_advisory == Seq::<char>::empty(),
        report_row(vulnerability, upstream).mismatch_tpa_cvev5 == Seq::<char>::empty(),
        report_row(vulnerability, upstream).cve_cna_content == Seq::<char>::empty(),
        report_row(vulnerability, upstream).cve_adp_content == Seq::<char>::empty(),
        report_row(vulnerability, upstream) == report_row(vulnerability, None),
{
}

} // verus!
