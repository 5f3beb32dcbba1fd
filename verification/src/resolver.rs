//! Locating the upstream record of a CVE identifier.
//!
//! The upstream list shards its records into directories named by a prefix of the
//! identifier's sequence number followed by `xxx`. The width of that prefix is
//! not known in advance, so the candidates are probed from the coarsest shard on.

use vstd::prelude::*;
use vstd::string::*;
use crate::text::join;

verus! {

/// The tokens of `s` between its hyphens, read from left to right: a hyphen closes
/// the current token and opens a new, empty one; any other character extends the
/// current token.
pub open spec fn tokens(s: Seq<char>) -> Seq<Seq<char>>
    decreases s.len(),
{
    if s.len() == 0 {
        seq![Seq::empty()]
    } else {
        let before = tokens(s.drop_last());
        if s.last() == '-' {
            before.push(Seq::empty())
        } else {
            before.drop_last().push(before.last().push(s.last()))
        }
    }
}

/// Splits `s` at its hyphens.
pub fn split_tokens(s: &str) -> (out: Vec<String>)
    ensures
        out.deep_view() == tokens(s@),
{
    let n: usize = s.unicode_len();
    let mut out: Vec<String> = Vec::new();
    let mut start: usize = 0;
    let mut i: usize = 0;
    proof {
        assert(s@.take(0) == Seq::<char>::empty());
        assert(out.deep_view().push(s@.subrange(0, 0)) == seq![Seq::<char>::empty()]);
    }
    for c in it: s.chars()
        invariant
            it.seq() == s@,
            n == s@.len(),
            i == it.index(),
            start <= i <= n,
            tokens(s@.take(i as int)) == out.deep_view().push(s@.subrange(start as int, i as int)),
    {
        let ghost done = out.deep_view();
        let ghost current = s@.subrange(start as int, i as int);
        proof {
            assert(s@.take(i + 1).drop_last() == s@.take(i as int));
            assert(s@.take(i + 1).last() == c);
            assert(done.push(current).last() == current);
            assert(done.push(current).drop_last() == done);
        }
        if c == '-' {
            let token = s.substring_char(start, i);
            out.push(token.to_owned());
            start = i + 1;
            proof {
                assert(out.deep_view() == done.push(current));
                assert(s@.subrange(i + 1, i + 1) == Seq::<char>::empty());
            }
        } else {
            proof {
                assert(s@.subrange(start as int, i + 1) == current.push(c));
            }
        }
        i = i + 1;
    }
    proof {
        assert(s@.take(n as int) == s@);
    }
    let ghost done = out.deep_view();
    let token = s.substring_char(start, i);
    out.push(token.to_owned());
    proof {
        assert(out.deep_view() == done.push(s@.subrange(start as int, i as int)));
    }
    out
}

/// Splitting at hyphens loses nothing: the tokens joined with a hyphen give the
/// text back, no token holds a hyphen, and there is always at least one token.
pub proof fn lemma_tokens_rejoin(s: Seq<char>)
    ensures
        tokens(s).len() >= 1,
        join(tokens(s), seq!['-']) == s,
        forall|k: int| 0 <= k < tokens(s).len() ==> !(#[trigger] tokens(s)[k]).contains('-'),
    decreases s.len(),
{
    let sep = seq!['-'];
    if s.len() == 0 {
        assert(join(tokens(s), sep) == s);
    } else {
        let before = tokens(s.drop_last());
        lemma_tokens_rejoin(s.drop_last());
        assert(s == s.drop_last().push(s.last()));
        if s.last() == '-' {
            let after = before.push(Seq::<char>::empty());
            assert(after.drop_last() == before);
            assert(join(after, sep) == join(before, sep) + sep + Seq::<char>::empty());
            assert(join(after, sep) == s);
        } else {
            let grown = before.last().push(s.last());
            let after = before.drop_last().push(grown);
            assert(after.drop_last() == before.drop_last());
            if before.len() == 1 {
                assert(join(before, sep) == before.last());
                assert(join(after, sep) == grown);
            } else {
                let head = join(before.drop_last(), sep) + sep;
                assert(join(before, sep) == head + before.last());
                assert(join(after, sep) == head + grown);
                assert(head + grown == (head + before.last()).push(s.last()));
            }
            assert(join(after, sep) == s);
            assert forall|k: int| 0 <= k < after.len() implies !(#[trigger] after[k]).contains(
                '-',
            ) by {
                if k < after.len() - 1 {
                    assert(after[k] == before[k]);
                } else {
                    assert(!before.last().contains('-'));
                    if grown.contains('-') {
                        let at = choose|at: int| 0 <= at < grown.len() && grown[at] == '-';
                        assert(before.last()[at] == '-');
                    }
                }
            }
        }
    }
}

/// Why a record could not be resolved.
#[derive(Debug, Clone, Copy, PartialEq, Eq, Structural)]
pub enum ResolveError {
    /// The identifier does not consist of exactly three hyphen-separated tokens.
    InvalidIdentifier,
    /// No candidate location answered with success.
    RecordNotFound,
}

/// The status code that counts as success.
pub const STATUS_OK: u16 = 200;

/// The name of the header that every request for a record carries.
pub const ACCEPT_HEADER: &'static str = "Accept";

/// The value of that header: records are asked for as JSON.
pub const ACCEPT_JSON: &'static str = "application/json";

/// Whether an identifier has the form `CVE-<year>-<sequence>`: exactly three
/// tokens between hyphens.
pub open spec fn well_formed(id: Seq<char>) -> bool {
    tokens(id).len() == 3
}

/// The year token of a well-formed identifier.
pub open spec fn year_of(id: Seq<char>) -> Seq<char> {
    tokens(id)[1]
}

/// The sequence token of a well-formed identifier.
pub open spec fn sequence_of(id: Seq<char>) -> Seq<char> {
    tokens(id)[2]
}

/// The bound on shard widths for a sequence token of the given length: the
/// candidate widths are those from 1 up to, and not including, this bound.
pub open spec fn width_bound(sequence_len: int) -> int {
    if sequence_len < 4 {
        sequence_len
    } else {
        4
    }
}

/// The location of the record of `id` in the shard of the given width.
pub open spec fn record_url(id: Seq<char>, width: int) -> Seq<char> {
    "https://raw.githubusercontent.com/CVEProject/cvelistV5/refs/heads/main/cves/"@ + year_of(id)
        + "/"@ + sequence_of(id).take(width) + "xxx/"@ + id + ".json"@
}

/// Model of a [`Probe`]: the identifier and the shard width to try next.
pub struct SpecProbe {
    pub id: Seq<char>,
    pub width: int,
}

impl SpecProbe {
    /// Whether every candidate has been tried.
    pub open spec fn exhausted(self) -> bool {
        self.width >= width_bound(sequence_of(self.id).len() as int)
    }

    /// The location to ask next.
    pub open spec fn url(self) -> Seq<char> {
        record_url(self.id, self.width)
    }

    /// Whether an answer with this status to the outstanding request is the record.
    pub open spec fn accepts(self, status: u16) -> bool {
        !self.exhausted() && status == STATUS_OK
    }

    /// The search after an answer with this status: on to the next wider shard if
    /// a request was outstanding and the answer is no success, unchanged otherwise.
    pub open spec fn after(self, status: u16) -> SpecProbe {
        if !self.exhausted() && status != STATUS_OK {
            SpecProbe { id: self.id, width: self.width + 1 }
        } else {
            self
        }
    }

    /// How the search ends against an upstream list in which the location `url`
    /// answers with the status `status_of(url)`: with the location that was
    /// accepted, or with `RecordNotFound`.
    pub open spec fn outcome(self, status_of: spec_fn(Seq<char>) -> u16) -> Result<
        Seq<char>,
        ResolveError,
    >
        decreases width_bound(sequence_of(self.id).len() as int) - self.width,
    {
        if self.exhausted() {
            Err(ResolveError::RecordNotFound)
        } else if self.accepts(status_of(self.url())) {
            Ok(self.url())
        } else {
            self.after(status_of(self.url())).outcome(status_of)
        }
    }
}

/// How resolving an identifier ends against an upstream list in which the
/// location `url` answers with the status `status_of(url)`.
pub open spec fn resolution(id: Seq<char>, status_of: spec_fn(Seq<char>) -> u16) -> Result<
    Seq<char>,
    ResolveError,
> {
    if well_formed(id) {
        (SpecProbe { id, width: 1 }).outcome(status_of)
    } else {
        Err(ResolveError::InvalidIdentifier)
    }
}

/// The search for the record of one identifier: candidates are tried from the
/// coarsest shard on, one request at a time, until one answers with success.
#[derive(Debug)]
pub struct Probe {
    id: String,
    year: String,
    sequence: String,
    sequence_len: usize,
    width: usize,
}

impl DeepView for Probe {
    type V = SpecProbe;

    closed spec fn deep_view(&self) -> SpecProbe {
        SpecProbe { id: self.id@, width: self.width as int }
    }
}

impl Probe {
    #[verifier::type_invariant]
    spec fn consistent(self) -> bool {
        &&& well_formed(self.id@)
        &&& self.year@ == year_of(self.id@)
        &&& self.sequence@ == sequence_of(self.id@)
        &&& self.sequence_len == self.sequence@.len()
        &&& 1 <= self.width <= 4
    }

    /// Starts the search for the record of `cve_id`.
    ///
    /// An identifier that does not split into exactly three tokens is refused
    /// here, before any location is asked.
    pub fn begin(cve_id: &str) -> (r: Result<Probe, ResolveError>)
        ensures
            match r {
                Ok(probe) => well_formed(cve_id@) && probe.deep_view() == (SpecProbe {
                    id: cve_id@,
                    width: 1,
                }),
                Err(e) => !well_formed(cve_id@) && e == ResolveError::InvalidIdentifier,
            },
    {
        let parts = split_tokens(cve_id);
        if parts.len() != 3 {
            return Err(ResolveError::InvalidIdentifier);
        }
        assert(parts.deep_view()[1] == parts[1]@);
        assert(parts.deep_view()[2] == parts[2]@);
        let sequence = parts[2].clone();
        let sequence_len = sequence.as_str().unicode_len();
        Ok(Probe { id: cve_id.to_owned(), year: parts[1].clone(), sequence, sequence_len, width: 1 })
    }

    /// The location to ask next, or `RecordNotFound` once every candidate has
    /// been tried.
    pub fn next_request(&self) -> (r: Result<String, ResolveError>)
        ensures
            match r {
                Ok(url) => !self.deep_view().exhausted() && url@ == self.deep_view().url(),
                Err(e) => self.deep_view().exhausted() && e == ResolveError::RecordNotFound,
            },
    {
        proof {
            use_type_invariant(self);
        }
        let bound: usize = if self.sequence_len < 4 { self.sequence_len } else { 4 };
        if self.width >= bound {
            return Err(ResolveError::RecordNotFound);
        }
        let mut url = String::from_str(
            "https://raw.githubusercontent.com/CVEProject/cvelistV5/refs/heads/main/cves/",
        );
        url.append(self.year.as_str());
        url.append("/");
        url.append(self.sequence.as_str().substring_char(0, self.width));
        url.append("xxx/");
        url.append(self.id.as_str());
        url.append(".json");
        Ok(url)
    }

    /// Takes the status of the answer to the last request. Returns whether the
    /// answer is the record: a success is, and the search is over; anything else is
    /// not, and the search moves on to the next wider shard. Without a request
    /// outstanding nothing changes and nothing is accepted.
    pub fn accepts(&mut self, status: u16) -> (r: bool)
        ensures
            r == old(self).deep_view().accepts(status),
            final(self).deep_view() == old(self).deep_view().after(status),
    {
        proof {
            use_type_invariant(&*self);
        }
        let bound: usize = if self.sequence_len < 4 { self.sequence_len } else { 4 };
        if self.width >= bound {
            false
        } else if status == STATUS_OK {
            true
        } else {
            self.width = self.width + 1;
            false
        }
    }
}

/// Every request stays within the sequence token: the width asked for is at
/// most three and less than the length of the token, so an identifier whose
/// sequence token has a single character is never asked for at all.
pub proof fn lemma_request_within_sequence(probe: SpecProbe)
    requires
        probe.width >= 1,
        !probe.exhausted(),
    ensures
        probe.width <= 3,
        probe.width < sequence_of(probe.id).len(),
        sequence_of(probe.id).len() >= 2,
{
}

/// The search accepts the first candidate that answers with success, in the
/// order of increasing width, and asks for nothing after it; it ends with
/// `RecordNotFound` exactly when no candidate from the current width on answers
/// with success.
pub proof fn lemma_first_success_wins(probe: SpecProbe, status_of: spec_fn(Seq<char>) -> u16)
    requires
        probe.width >= 1,
    ensures
        match probe.outcome(status_of) {
            Ok(url) => exists|width: int|
                probe.width <= width < width_bound(sequence_of(probe.id).len() as int) && url
                    == #[trigger] record_url(probe.id, width) && status_of(url) == STATUS_OK
                    && forall|earlier: int|
                    probe.width <= earlier < width ==> status_of(
                        #[trigger] record_url(probe.id, earlier),
                    ) != STATUS_OK,
            Err(e) => e == ResolveError::RecordNotFound && forall|width: int|
                probe.width <= width < width_bound(sequence_of(probe.id).len() as int)
                    ==> status_of(#[trigger] record_url(probe.id, width)) != STATUS_OK,
        },
    decreases width_bound(sequence_of(probe.id).len() as int) - probe.width,
{
    if !probe.exhausted() {
        let status = status_of(probe.url());
        if probe.accepts(status) {
            assert(probe.url() == record_url(probe.id, probe.width));
        } else {
            let next = probe.after(status);
            lemma_first_success_wins(next, status_of);
            match next.outcome(status_of) {
                Ok(url) => {
                    let width = choose|width: int|
                        next.width <= width < width_bound(sequence_of(probe.id).len() as int)
                            && url == #[trigger] record_url(probe.id, width) && status_of(url)
                            == STATUS_OK && forall|earlier: int|
                            next.width <= earlier < width ==> status_of(
                                #[trigger] record_url(probe.id, earlier),
                            ) != STATUS_OK;
                    assert forall|earlier: int| probe.width <= earlier < width implies status_of(
                        #[trigger] record_url(probe.id, earlier),
                    ) != STATUS_OK by {
                        if earlier == probe.width {
                            assert(record_url(probe.id, earlier) == probe.url());
                        }
                    }
                    assert(url == record_url(probe.id, width));
                },
                Err(_) => {
                    assert forall|width: int|
                        probe.width <= width < width_bound(
                            sequence_of(probe.id).len() as int,
                        ) implies status_of(#[trigger] record_url(probe.id, width))
                        != STATUS_OK by {
                        if width == probe.width {
                            assert(record_url(probe.id, width) == probe.url());
                        }
                    }
                },
            }
        }
    }
}

/// An identifier that is not made of exactly three tokens is refused whatever the
/// upstream list holds: no location is ever asked.
pub proof fn lemma_malformed_is_refused(id: Seq<char>, status_of: spec_fn(Seq<char>) -> u16)
    requires
        !well_formed(id),
    ensures
        resolution(id, status_of) == Err::<Seq<char>, ResolveError>(
            ResolveError::InvalidIdentifier,
        ),
{
}

} // verus!
