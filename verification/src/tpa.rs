//! What the tracker reports: vulnerabilities with an average score and severity,
//! each with the advisories the average was taken from.

use vstd::prelude::*;
use vstd::string::*;
use crate::score::{Score, SpecScore};

verus! {

/// Label metadata of an advisory.
#[derive(Debug)]
pub struct Labels {
    pub source: Option<String>,
    pub file: Option<String>,
    /// The advisory's `type` label.
    pub adv_type: String,
    pub importer: Option<String>,
}

/// One advisory behind a tracker vulnerability.
#[derive(Debug)]
pub struct Advisories {
    pub identifier: String,
    pub score: Option<Score>,
    pub severity: Option<String>,
    pub labels: Labels,
}

/// A vulnerability as the tracker reports it.
#[derive(Debug)]
pub struct Vulnerability {
    pub identifier: String,
    pub title: Option<String>,
    pub average_severity: Option<String>,
    pub average_score: Option<Score>,
    pub advisories: Vec<Advisories>,
}

/// One page of tracker vulnerabilities.
#[derive(Debug)]
pub struct TPAVulns {
    pub items: Vec<Vulnerability>,
}

/// Model of [`Labels`].
pub struct SpecLabels {
    pub source: Option<Seq<char>>,
    pub file: Option<Seq<char>>,
    pub adv_type: Seq<char>,
    pub importer: Option<Seq<char>>,
}

/// Model of [`Advisories`].
pub struct SpecAdvisory {
    pub identifier: Seq<char>,
    pub score: Option<SpecScore>,
    pub severity: Option<Seq<char>>,
    pub labels: SpecLabels,
}

/// Model of [`Vulnerability`].
pub struct SpecVulnerability {
    pub identifier: Seq<char>,
    pub title: Option<Seq<char>>,
    pub average_severity: Option<Seq<char>>,
    pub average_score: Option<SpecScore>,
    pub advisories: Seq<SpecAdvisory>,
}

/// Model of [`TPAVulns`].
pub struct SpecTPAVulns {
    pub items: Seq<SpecVulnerability>,
}

impl DeepView for Labels {
    type V = SpecLabels;

    open spec fn deep_view(&self) -> SpecLabels {
        SpecLabels {
            source: self.source.deep_view(),
            file: self.file.deep_view(),
            adv_type: self.adv_type@,
            importer: self.importer.deep_view(),
        }
    }
}

impl DeepView for Advisories {
    type V = SpecAdvisory;

    open spec fn deep_view(&self) -> SpecAdvisory {
        SpecAdvisory {
            identifier: self.identifier@,
            score: self.score.deep_view(),
            severity: self.severity.deep_view(),
            labels: self.labels.deep_view(),
        }
    }
}

impl DeepView for Vulnerability {
    type V = SpecVulnerability;

    open spec fn deep_view(&self) -> SpecVulnerability {
        SpecVulnerability {
            identifier: self.identifier@,
            title: self.title.deep_view(),
            average_severity: self.average_severity.deep_view(),
            average_score: self.average_score.deep_view(),
            advisories: self.advisories.deep_view(),
        }
    }
}

impl DeepView for TPAVulns {
    type V = SpecTPAVulns;

    open spec fn deep_view(&self) -> SpecTPAVulns {
        SpecTPAVulns { items: self.items.deep_view() }
    }
}

/// Why a page of vulnerabilities could not be had from the tracker.
#[derive(Debug, Clone, Copy, PartialEq, Eq, Structural)]
pub enum TrackerError {
    /// The tracker answered with a status other than success.
    SourceUnavailable { status: u16 },
    /// The tracker answered with success, but the payload could not be decoded.
    MalformedResponse,
}

/// The status code that counts as success.
pub const STATUS_OK: u16 = 200;

/// The name of the header that carries the access token.
pub const AUTHORIZATION_HEADER: &'static str = "Authorization";

/// The location of the first page of the vulnerabilities of one severity.
pub open spec fn query_url(base_url: Seq<char>, severity: Seq<char>, limit: Seq<char>) -> Seq<
    char,
> {
    base_url + "/api/v2/vulnerability?limit="@ + limit + "&offset=0&q=base_severity%3D"@ + severity
}

/// The value of the `Authorization` header for an access token.
pub open spec fn bearer(token: Seq<char>) -> Seq<char> {
    "Bearer "@ + token
}

/// The request for one page of tracker vulnerabilities.
#[derive(Debug)]
pub struct TrackerRequest {
    /// Where to send the `GET`.
    pub url: String,
    /// The value of the `Authorization` header.
    pub authorization: String,
}

/// Model of [`TrackerRequest`].
pub struct SpecTrackerRequest {
    pub url: Seq<char>,
    pub authorization: Seq<char>,
}

impl DeepView for TrackerRequest {
    type V = SpecTrackerRequest;

    open spec fn deep_view(&self) -> SpecTrackerRequest {
        SpecTrackerRequest { url: self.url@, authorization: self.authorization@ }
    }
}

/// Builds the request for the vulnerabilities whose average severity is
/// `severity`: a single page of at most `limit` items, from offset 0. There is no
/// request for a further page.
pub fn tracker_request(base_url: &str, severity: &str, limit: &str, access_token: &str) -> (r:
    TrackerRequest)
    ensures
        r.deep_view() == (SpecTrackerRequest {
            url: query_url(base_url@, severity@, limit@),
            authorization: bearer(access_token@),
        }),
{
    let mut url = String::from_str(base_url);
    url.append("/api/v2/vulnerability?limit=");
    url.append(limit);
    url.append("&offset=0&q=base_severity%3D");
    url.append(severity);
    let mut authorization = String::from_str("Bearer ");
    authorization.append(access_token);
    TrackerRequest { url, authorization }
}

/// What an answer of the tracker amounts to.
pub open spec fn outcome(status: u16, payload: Option<TPAVulns>) -> Result<TPAVulns, TrackerError> {
    if status != STATUS_OK {
        Err(TrackerError::SourceUnavailable { status })
    } else {
        match payload {
            Some(page) => Ok(page),
            None => Err(TrackerError::MalformedResponse),
        }
    }
}

/// Judges an answer of the tracker by its status and by its payload, where
/// `payload` is `None` if the body could not be decoded. A status other than
/// success is `SourceUnavailable`, whatever the body holds; a success whose body
/// could not be decoded is `MalformedResponse`; otherwise the page is handed on.
pub fn tracker_outcome(status: u16, payload: Option<TPAVulns>) -> (r: Result<TPAVulns, TrackerError>)
    ensures
        r == outcome(status, payload),
{
    if status != STATUS_OK {
        Err(TrackerError::SourceUnavailable { status })
    } else {
        match payload {
            Some(page) => Ok(page),
            None => Err(TrackerError::MalformedResponse),
        }
    }
}

} // verus!
