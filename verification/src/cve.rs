//! The upstream CVE record: its containers, metric blocks and CVSS variants.
//!
//! Field names follow the keys of the CVE record format, so a decoded record maps
//! onto these types one for one.

use vstd::prelude::*;
use crate::score::{Score, SpecScore};

verus! {

/// A metric of a kind the record format does not define further.
#[derive(Debug)]
pub struct CVSSOther {
    /// The record's `type` key.
    pub othertype: String,
}

/// A CVSS v3.0, v3.1 or v4.0 metric.
#[allow(non_snake_case)]
#[derive(Debug)]
pub struct CVSS {
    pub baseScore: Score,
    pub vectorString: String,
    pub baseSeverity: String,
}

/// A CVSS v2.0 metric, which carries no severity label.
#[derive(Debug)]
pub struct CVSSv2 {
    pub base_score: Score,
    pub vector_string: String,
}

/// One entry of a metrics block, tagged by the CVSS version it holds.
#[allow(non_snake_case)]
#[allow(non_camel_case_types)]
#[derive(Debug)]
pub enum MetricsWrapper {
    CvssV2_0 { cvssV2_0: CVSSv2 },
    CvssV3_0 { cvssV3_0: CVSS },
    CvssV3_1 { cvssV3_1: CVSS },
    CvssV4_0 { cvssV4_0: CVSS },
    Other { other: CVSSOther },
}

/// A description of the vulnerability in one language.
#[derive(Debug)]
pub struct Description {
    pub lang: String,
    pub value: String,
}

/// The container of the CVE Numbering Authority, the primary source of a record.
#[derive(Debug)]
pub struct CNAcontent {
    pub descriptions: Vec<Description>,
    pub metrics: Option<Vec<Option<MetricsWrapper>>>,
}

/// The container of an Authorized Data Publisher, a supplementary source.
#[derive(Debug)]
pub struct ADPcontent {
    pub title: Option<String>,
    pub metrics: Option<Vec<Option<MetricsWrapper>>>,
}

/// The containers of a record: one CNA container and any number of ADP containers.
#[derive(Debug)]
pub struct CVEContainers {
    pub cna: CNAcontent,
    pub adp: Option<Vec<ADPcontent>>,
}

/// An upstream CVE record.
#[derive(Debug)]
pub struct CVEListV5 {
    pub containers: CVEContainers,
}

/// Model of [`CVSSOther`].
pub struct SpecCVSSOther {
    pub othertype: Seq<char>,
}

/// Model of [`CVSS`].
pub struct SpecCVSS {
    pub base_score: SpecScore,
    pub vector_string: Seq<char>,
    pub base_severity: Seq<char>,
}

/// Model of [`CVSSv2`].
pub struct SpecCVSSv2 {
    pub base_score: SpecScore,
    pub vector_string: Seq<char>,
}

/// Model of [`MetricsWrapper`].
pub enum SpecMetric {
    V2_0(SpecCVSSv2),
    V3_0(SpecCVSS),
    V3_1(SpecCVSS),
    V4_0(SpecCVSS),
    Other(SpecCVSSOther),
}

/// A metrics block as contracts see it: entries in order, absent entries included.
pub type SpecMetrics = Seq<Option<SpecMetric>>;

/// Model of [`Description`].
pub struct SpecDescription {
    pub lang: Seq<char>,
    pub value: Seq<char>,
}

/// Model of [`CNAcontent`].
pub struct SpecCNAcontent {
    pub descriptions: Seq<SpecDescription>,
    pub metrics: Option<SpecMetrics>,
}

/// Model of [`ADPcontent`].
pub struct SpecADPcontent {
    pub title: Option<Seq<char>>,
    pub metrics: Option<SpecMetrics>,
}

/// Model of [`CVEContainers`].
pub struct SpecCVEContainers {
    pub cna: SpecCNAcontent,
    pub adp: Option<Seq<SpecADPcontent>>,
}

/// Model of [`CVEListV5`].
pub struct SpecCVEListV5 {
    pub containers: SpecCVEContainers,
}

impl DeepView for CVSSOther {
    type V = SpecCVSSOther;

    open spec fn deep_view(&self) -> SpecCVSSOther {
        SpecCVSSOther { othertype: self.othertype@ }
    }
}

impl DeepView for CVSS {
    type V = SpecCVSS;

    open spec fn deep_view(&self) -> SpecCVSS {
        SpecCVSS {
            base_score: self.baseScore.deep_view(),
            vector_string: self.vectorString@,
            base_severity: self.baseSeverity@,
        }
    }
}

impl DeepView for CVSSv2 {
    type V = SpecCVSSv2;

    open spec fn deep_view(&self) -> SpecCVSSv2 {
        SpecCVSSv2 { base_score: self.base_score.deep_view(), vector_string: self.vector_string@ }
    }
}

impl DeepView for MetricsWrapper {
    type V = SpecMetric;

    open spec fn deep_view(&self) -> SpecMetric {
        match *self {
            MetricsWrapper::CvssV2_0 { cvssV2_0 } => SpecMetric::V2_0(cvssV2_0.deep_view()),
            MetricsWrapper::CvssV3_0 { cvssV3_0 } => SpecMetric::V3_0(cvssV3_0.deep_view()),
            MetricsWrapper::CvssV3_1 { cvssV3_1 } => SpecMetric::V3_1(cvssV3_1.deep_view()),
            MetricsWrapper::CvssV4_0 { cvssV4_0 } => SpecMetric::V4_0(cvssV4_0.deep_view()),
            MetricsWrapper::Other { other } => SpecMetric::Other(other.deep_view()),
        }
    }
}

impl DeepView for Description {
    type V = SpecDescription;

    open spec fn deep_view(&self) -> SpecDescription {
        SpecDescription { lang: self.lang@, value: self.value@ }
    }
}

impl DeepView for CNAcontent {
    type V = SpecCNAcontent;

    open spec fn deep_view(&self) -> SpecCNAcontent {
        SpecCNAcontent {
            descriptions: self.descriptions.deep_view(),
            metrics: self.metrics.deep_view(),
        }
    }
}

impl DeepView for ADPcontent {
    type V = SpecADPcontent;

    open spec fn deep_view(&self) -> SpecADPcontent {
        SpecADPcontent { title: self.title.deep_view(), metrics: self.metrics.deep_view() }
    }
}

impl DeepView for CVEContainers {
    type V = SpecCVEContainers;

    open spec fn deep_view(&self) -> SpecCVEContainers {
        SpecCVEContainers { cna: self.cna.deep_view(), adp: self.adp.deep_view() }
    }
}

impl DeepView for CVEListV5 {
    type V = SpecCVEListV5;

    open spec fn deep_view(&self) -> SpecCVEListV5 {
        SpecCVEListV5 { containers: self.containers.deep_view() }
    }
}

} // verus!
