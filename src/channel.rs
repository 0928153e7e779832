//! Draining the routing channel and splitting what was drained into columns.
use vstd::prelude::*;
use tokio::sync::mpsc::Receiver;
use crate::samples::{collect_samples, sample_tokens, split_samples, strings_view, ParseError};
use crate::plot::ColumnSamples;

verus! {

/// The `(column name, raw value)` pairs of one ingestion request, in order.
pub type Record = Vec<(String, String)>;

#[verifier::external_type_specification]
#[verifier::external_body]
#[verifier::reject_recursive_types(T)]
pub struct ExReceiver<T>(Receiver<T>);

/// The records waiting in the channel of `rx`, oldest first.
pub uninterp spec fn pending(rx: Receiver<Record>) -> Seq<Record>;

/// The bound that the channel of `rx` was made with.
pub uninterp spec fn capacity_of(rx: Receiver<Record>) -> usize;

/// Relies on tokio's `mpsc::Receiver::try_recv`: it takes the oldest waiting
/// record, and reports an empty channel (as `Empty` or `Disconnected`) only
/// when no record waits, never spuriously. Senders only ever add records
/// behind those waiting. It never waits for a record to arrive.
#[verifier::external_body]
fn try_recv_record(rx: &mut Receiver<Record>) -> (r: Option<Record>)
    ensures
        capacity_of(*final(rx)) == capacity_of(*old(rx)),
        r is None ==> pending(*old(rx)).len() == 0,
        pending(*old(rx)).len() > 0 ==> r == Some(pending(*old(rx))[0]) && pending(
            *old(rx),
        ).drop_first().is_prefix_of(pending(*final(rx))),
{
    rx.try_recv().ok()
}

/// Relies on tokio's `mpsc::Receiver::max_capacity`: the bound that the
/// channel was made with, which no number of waiting records exceeds.
#[verifier::external_body]
fn channel_bound(rx: &Receiver<Record>) -> (r: usize)
    ensures
        r == capacity_of(*rx),
        pending(*rx).len() <= r,
{
    rx.max_capacity()
}

/// Takes the records waiting in the channel, in arrival order, without
/// waiting for more: it stops at the first attempt that finds none, and after
/// one channel's worth, so that producers that keep sending cannot hold a
/// pass. Every record that waited when it was called comes out, first and in
/// order.
pub fn drain(rx: &mut Receiver<Record>) -> (r: Vec<Record>)
    ensures
        pending(*old(rx)).is_prefix_of(r@),
        r@.len() <= capacity_of(*old(rx)),
        capacity_of(*final(rx)) == capacity_of(*old(rx)),
{
    let ghost waiting = pending(*rx);
    let bound = channel_bound(rx);
    let mut out: Vec<Record> = Vec::new();
    let mut taken: usize = 0;
    while taken < bound
        invariant
            taken <= bound,
            out@.len() == taken,
            bound == capacity_of(*old(rx)),
            capacity_of(*rx) == capacity_of(*old(rx)),
            waiting == pending(*old(rx)),
            waiting.len() <= bound,
            waiting.is_prefix_of(out@) || waiting.is_prefix_of(out@ + pending(*rx)),
        decreases bound - taken,
    {
        let ghost before = out@;
        let ghost cur = pending(*rx);
        match try_recv_record(rx) {
            Some(record) => {
                out.push(record);
                proof {
                    if waiting.is_prefix_of(before) {
                        assert(out@.subrange(0, waiting.len() as int) =~= before.subrange(
                            0,
                            waiting.len() as int,
                        ));
                    } else if cur.len() > 0 {
                        let next = pending(*rx);
                        assert(cur =~= seq![cur[0]] + cur.drop_first());
                        assert forall|k: int| 0 <= k < waiting.len() implies (out@ + next)[k]
                            == waiting[k] by {
                            assert(waiting[k] == (before + cur)[k]);
                            if k < before.len() {
                            } else if k == before.len() {
                            } else {
                                assert(cur[k - before.len()] == cur.drop_first()[k - before.len() - 1]);
                                assert(cur.drop_first()[k - before.len() - 1] == next[k - before.len() - 1]);
                            }
                        }
                        assert((out@ + next).subrange(0, waiting.len() as int) =~= waiting);
                    } else {
                        assert((before + cur) =~= before);
                        assert(out@.subrange(0, waiting.len() as int) =~= before.subrange(
                            0,
                            waiting.len() as int,
                        ));
                    }
                }
            },
            None => {
                proof {
                    if !waiting.is_prefix_of(before) {
                        assert(before + cur =~= before);
                    }
                }
                return out;
            },
        }
        taken = taken + 1;
    }
    proof {
        if !waiting.is_prefix_of(out@) {
            let all = out@ + pending(*rx);
            assert(all.subrange(0, waiting.len() as int) =~= out@.subrange(0, waiting.len() as int));
        }
    }
    out
}

/// The pairs of the records, one after another, in order.
pub open spec fn flat_pairs(records: Seq<Record>) -> Seq<(String, String)>
    decreases records.len(),
{
    if records.len() == 0 {
        Seq::empty()
    } else {
        flat_pairs(records.drop_last()) + records.last()@
    }
}

/// A column name with the tokens of its raw value.
pub struct ColumnTokens {
    pub name: String,
    pub tokens: Vec<String>,
}

/// Splits the raw value of every pair of the drained records into tokens.
pub fn tokenize_records(records: &Vec<Record>) -> (r: Vec<ColumnTokens>)
    ensures
        r@.len() == flat_pairs(records@).len(),
        forall|k: int|
            0 <= k < r@.len() ==> {
                &&& (#[trigger] r@[k]).name@ == flat_pairs(records@)[k].0@
                &&& strings_view(r@[k].tokens@) == sample_tokens(flat_pairs(records@)[k].1@)
            },
{
    let mut out: Vec<ColumnTokens> = Vec::new();
    let mut i: usize = 0;
    while i < records.len()
        invariant
            i <= records@.len(),
            out@.len() == flat_pairs(records@.take(i as int)).len(),
            forall|k: int|
                0 <= k < out@.len() ==> {
                    &&& (#[trigger] out@[k]).name@ == flat_pairs(records@.take(i as int))[k].0@
                    &&& strings_view(out@[k].tokens@) == sample_tokens(
                        flat_pairs(records@.take(i as int))[k].1@,
                    )
                },
        decreases records@.len() - i,
    {
        let record = &records[i];
        let ghost start = out@.len();
        let ghost done = flat_pairs(records@.take(i as int));
        proof {
            assert(records@.take(i as int + 1).drop_last() =~= records@.take(i as int));
            assert(records@.take(i as int + 1).last() == records@[i as int]);
            assert(flat_pairs(records@.take(i as int + 1)) == done + record@);
        }
        let mut j: usize = 0;
        while j < record.len()
            invariant
                j <= record@.len(),
                out@.len() == start + j,
                start == done.len(),
                forall|k: int|
                    0 <= k < out@.len() ==> {
                        &&& (#[trigger] out@[k]).name@ == (done + record@)[k].0@
                        &&& strings_view(out@[k].tokens@) == sample_tokens((done + record@)[k].1@)
                    },
            decreases record@.len() - j,
        {
            let tokens = split_samples(record[j].1.as_str());
            let name = record[j].0.clone();
            out.push(ColumnTokens { name, tokens });
            j = j + 1;
        }
        i = i + 1;
    }
    assert(records@.take(i as int) =~= records@);
    out
}

/// What `collect_samples` makes of the tokens of a raw value and what each
/// token converted to.
pub open spec fn collected(
    tokens: Seq<String>,
    parsed: Seq<Result<u64, String>>,
    r: Result<Vec<u64>, ParseError>,
) -> bool {
    &&& r is Ok <==> (forall|i: int| 0 <= i < parsed.len() ==> parsed[i] is Ok)
    &&& r is Ok ==> r->Ok_0@ == crate::samples::converted(parsed)
    &&& r is Err ==> exists|i: int|
        #![auto]
        crate::samples::is_first_failure(parsed, i) && r->Err_0.token@ == tokens[i]@
            && r->Err_0.reason@ == parsed[i]->Err_0@
}

/// Gathers the samples of each column from what its tokens converted to; a
/// column with a token that did not convert is rejected as a whole.
pub fn columns_from(cols: &Vec<ColumnTokens>, parsed: &Vec<Vec<Result<u64, String>>>) -> (r: Vec<
    ColumnSamples,
>)
    requires
        cols@.len() == parsed@.len(),
        forall|k: int| 0 <= k < cols@.len() ==> (#[trigger] cols@[k]).tokens@.len() == parsed@[k]@.len(),
    ensures
        r@.len() == cols@.len(),
        forall|k: int|
            0 <= k < r@.len() ==> {
                &&& (#[trigger] r@[k]).name@ == cols@[k].name@
                &&& collected(cols@[k].tokens@, parsed@[k]@, r@[k].samples)
            },
{
    let mut out: Vec<ColumnSamples> = Vec::new();
    let mut k: usize = 0;
    while k < cols.len()
        invariant
            k <= cols@.len(),
            cols@.len() == parsed@.len(),
            forall|q: int| 0 <= q < cols@.len() ==> (#[trigger] cols@[q]).tokens@.len() == parsed@[q]@.len(),
            out@.len() == k,
            forall|q: int|
                0 <= q < k ==> {
                    &&& (#[trigger] out@[q]).name@ == cols@[q].name@
                    &&& collected(cols@[q].tokens@, parsed@[q]@, out@[q].samples)
                },
        decreases cols@.len() - k,
    {
        assert(cols@[k as int].tokens@.len() == parsed@[k as int]@.len());
        let samples = collect_samples(&cols[k].tokens, &parsed[k]);
        let name = cols[k].name.clone();
        out.push(ColumnSamples { name, samples });
        k = k + 1;
    }
    out
}

} // verus!
