//! Query strings of ingestion requests, and how a request can fail.
use vstd::prelude::*;
use vstd::string::*;
use crate::channel::Record;

verus! {

/// The percent-decoded `(name, value)` pairs of an
/// `application/x-www-form-urlencoded` string, in order.
pub uninterp spec fn form_pairs(query: Seq<char>) -> Seq<(Seq<char>, Seq<char>)>;

pub open spec fn pairs_view(r: Seq<(String, String)>) -> Seq<(Seq<char>, Seq<char>)> {
    r.map_values(|p: (String, String)| (p.0@, p.1@))
}

/// Relies on `url::form_urlencoded::parse` followed by `into_owned`: the
/// decoded pairs of the query, in order; an empty query has none.
#[verifier::external_body]
fn decode_form(query: &str) -> (r: Record)
    ensures
        pairs_view(r@) == form_pairs(query@),
        query@.len() == 0 ==> r@.len() == 0,
{
    url::form_urlencoded::parse(query.as_bytes()).into_owned().collect()
}

/// The record of a request: the decoded pairs of its query string, and no
/// pair when it has none.
pub fn query_record(query: Option<&str>) -> (r: Record)
    ensures
        query is None ==> r@.len() == 0,
        query is Some ==> pairs_view(r@) == form_pairs(query->Some_0@),
{
    match query {
        Some(q) => decode_form(q),
        None => Vec::new(),
    }
}

/// Why an ingestion request failed.
#[derive(PartialEq, Eq, Structural, Debug, Clone, Copy)]
pub enum IngestError {
    /// No channel was installed yet.
    NotReady,
    /// The consumer dropped its end of the channel.
    Closed,
}

impl IngestError {
    pub open spec fn text(self) -> Seq<char> {
        match self {
            IngestError::NotReady => "not ready: no channel is installed"@,
            IngestError::Closed => "channel closed by the receiver"@,
        }
    }

    /// The plain-text body of the failed response.
    pub fn message(&self) -> (r: String)
        ensures
            r@ == self.text(),
    {
        match self {
            IngestError::NotReady => String::from_str("not ready: no channel is installed"),
            IngestError::Closed => String::from_str("channel closed by the receiver"),
        }
    }
}

/// The outcome of a request, from whether a channel was installed and, if
/// so, whether the record was handed to it.
pub fn ingest_outcome(installed: bool, delivered: bool) -> (r: Result<(), IngestError>)
    ensures
        !installed ==> r == Err::<(), IngestError>(IngestError::NotReady),
        installed && !delivered ==> r == Err::<(), IngestError>(IngestError::Closed),
        installed && delivered ==> r is Ok,
{
    if !installed {
        Err(IngestError::NotReady)
    } else if !delivered {
        Err(IngestError::Closed)
    } else {
        Ok(())
    }
}

} // verus!
