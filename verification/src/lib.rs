//! Reconciliation of the scores that a vulnerability tracker reports against the
//! upstream CVE records.
//!
//! The library holds the rules and does no input or output. [`engine`] is the run
//! as a state machine: it asks its driver for the tracker's vulnerabilities, bucket
//! by bucket, and for the upstream record of each vulnerability that carries an
//! average score, and hands out the finished rows. [`resolver`] finds the location
//! of a record among the shards of the upstream list, and [`tpa`] builds the
//! request to the tracker and judges its answer. [`analysis`] picks the
//! authoritative base score of a record and builds the row of a vulnerability;
//! [`report`] writes the rows as quoted, tab-separated lines.
//!
//! The functions are verified against contracts over the models in [`cve`],
//! [`tpa`] and [`score`], with one exception: the call into the `csv` crate in
//! [`report`] stands behind a wrapper whose contract is taken on trust from that
//! crate's source, and what the report writer promises rests on it.

pub mod analysis;
pub mod cve;
pub mod engine;
pub mod report;
pub mod resolver;
pub mod score;
pub mod text;
pub mod tpa;
