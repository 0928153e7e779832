//! The set of plots with its log, and the consumer pass that feeds them.
use vstd::prelude::*;
use vstd::string::*;
use crate::samples::{parse_error_text, strings_view};
use crate::plot::{added_points, lookup, ColumnSamples, RealTimePlot};

verus! {

/// One log line: milliseconds since the Unix epoch, and the message.
pub struct LogEntry {
    pub stamp: i64,
    pub message: String,
}

pub open spec fn log_view(logs: Seq<LogEntry>) -> Seq<(i64, Seq<char>)> {
    logs.map_values(|e: LogEntry| (e.stamp, e.message@))
}

/// The messages for the columns of a pass that were rejected, in order.
pub open spec fn error_messages(cols: Seq<ColumnSamples>) -> Seq<Seq<char>>
    decreases cols.len(),
{
    if cols.len() == 0 {
        Seq::empty()
    } else {
        error_messages(cols.drop_last()) + match cols.last().samples {
            Ok(_) => Seq::empty(),
            Err(e) => seq![parse_error_text(e.token@, e.reason@)],
        }
    }
}

/// How many samples the accepted columns of a pass hold together.
pub open spec fn sample_count(cols: Seq<ColumnSamples>) -> nat
    decreases cols.len(),
{
    if cols.len() == 0 {
        0
    } else {
        sample_count(cols.drop_last()) + match cols.last().samples {
            Ok(v) => v@.len(),
            Err(_) => 0,
        }
    }
}

/// `n`, or `usize::MAX` when `n` does not fit.
pub open spec fn saturated(n: nat) -> usize {
    if n <= usize::MAX {
        n as usize
    } else {
        usize::MAX
    }
}

/// Each message paired with the stamp `stamp`.
pub open spec fn stamped(msgs: Seq<Seq<char>>, stamp: i64) -> Seq<(i64, Seq<char>)> {
    Seq::new(msgs.len(), |k: int| (stamp, msgs[k]))
}

/// Some plot names column `k` on one of its axes.
pub open spec fn named_by(plots: Seq<RealTimePlot>, k: Seq<char>) -> bool {
    exists|p: int| 0 <= p < plots.len() && (#[trigger] plots[p]).names(k)
}

/// No later column of the pass has the name of column `i`.
pub open spec fn is_last_entry(cols: Seq<ColumnSamples>, i: int) -> bool {
    forall|j: int| i < j < cols.len() ==> (#[trigger] cols[j]).name@ != cols[i].name@
}

/// Column `i` holds the samples of its name in the pass, and no plot names it.
pub open spec fn is_unknown(plots: Seq<RealTimePlot>, cols: Seq<ColumnSamples>, i: int) -> bool {
    &&& cols[i].samples is Ok
    &&& is_last_entry(cols, i)
    &&& !named_by(plots, cols[i].name@)
}

/// The unknown column names among the first `n` columns, each once, in order.
pub open spec fn unknown_names(plots: Seq<RealTimePlot>, cols: Seq<ColumnSamples>, n: int) -> Seq<
    Seq<char>,
>
    decreases n,
{
    if n <= 0 {
        Seq::empty()
    } else {
        unknown_names(plots, cols, n - 1) + if is_unknown(plots, cols, n - 1) {
            seq![cols[n - 1].name@]
        } else {
            Seq::empty()
        }
    }
}

/// Names separated by `", "`.
pub open spec fn joined(names: Seq<Seq<char>>) -> Seq<char>
    decreases names.len(),
{
    if names.len() == 0 {
        Seq::empty()
    } else if names.len() == 1 {
        names[0]
    } else {
        joined(names.drop_last()) + ", "@ + names.last()
    }
}

/// The message that reports unknown column names.
pub open spec fn unknown_text(names: Seq<Seq<char>>) -> Seq<char> {
    "Unknown column name: {"@ + joined(names) + "}"@
}

/// The messages that a pass logs: one per rejected column, then one listing
/// the unknown column names if there are any.
pub open spec fn pass_messages(plots: Seq<RealTimePlot>, cols: Seq<ColumnSamples>) -> Seq<
    Seq<char>,
> {
    let unknown = unknown_names(plots, cols, cols.len() as int);
    error_messages(cols) + if unknown.len() > 0 {
        seq![unknown_text(unknown)]
    } else {
        Seq::empty()
    }
}

/// Whether some plot names column `k` on one of its axes.
pub fn is_named(plots: &Vec<RealTimePlot>, k: &String) -> (r: bool)
    ensures
        r == named_by(plots@, k@),
{
    let mut p: usize = 0;
    while p < plots.len()
        invariant
            p <= plots@.len(),
            forall|q: int| 0 <= q < p ==> !(#[trigger] plots@[q]).names(k@),
        decreases plots@.len() - p,
    {
        let plot = &plots[p];
        if plot.x_axis == *k {
            assert(plots@[p as int].names(k@));
            return true;
        }
        let mut j: usize = 0;
        while j < plot.y_axis.len()
            invariant
                j <= plot.y_axis@.len(),
                p < plots@.len(),
                *plot == plots@[p as int],
                plot.x_axis@ != k@,
                forall|q: int| 0 <= q < j ==> plot.y_axis@[q]@ != k@,
            decreases plot.y_axis@.len() - j,
        {
            if plot.y_axis[j] == *k {
                assert(plots@[p as int].names(k@));
                return true;
            }
            j = j + 1;
        }
        p = p + 1;
    }
    false
}

/// The unknown column names of a pass, each once, in order.
pub fn unknown_columns(plots: &Vec<RealTimePlot>, cols: &Vec<ColumnSamples>) -> (r: Vec<String>)
    ensures
        strings_view(r@) == unknown_names(plots@, cols@, cols@.len() as int),
{
    let n = cols.len();
    let mut out: Vec<String> = Vec::new();
    let mut i: usize = 0;
    while i < n
        invariant
            n == cols@.len(),
            i <= n,
            strings_view(out@) == unknown_names(plots@, cols@, i as int),
        decreases n - i,
    {
        let c = &cols[i];
        let mut last = true;
        let mut k: usize = i + 1;
        while k < n
            invariant
                n == cols@.len(),
                i < k <= n,
                *c == cols@[i as int],
                last == (forall|j: int| i < j < k ==> (#[trigger] cols@[j]).name@ != cols@[i as int].name@),
            decreases n - k,
        {
            if cols[k].name == c.name {
                last = false;
                assert(cols@[k as int].name@ == cols@[i as int].name@);
            }
            k = k + 1;
        }
        if c.samples.is_ok() && last && !is_named(plots, &c.name) {
            let ghost prev = out@;
            out.push(c.name.clone());
            assert(strings_view(out@) =~= strings_view(prev).push(c.name@));
        } else {
            assert(unknown_names(plots@, cols@, i as int + 1) =~= unknown_names(plots@, cols@, i as int));
        }
        i = i + 1;
    }
    out
}

/// Joins names with `", "`.
pub fn join_names(names: &Vec<String>) -> (r: String)
    ensures
        r@ == joined(strings_view(names@)),
{
    let mut r = String::new();
    let mut i: usize = 0;
    while i < names.len()
        invariant
            i <= names@.len(),
            r@ == joined(strings_view(names@.take(i as int))),
        decreases names@.len() - i,
    {
        let ghost before = strings_view(names@.take(i as int));
        let ghost after = strings_view(names@.take(i as int + 1));
        assert(after.drop_last() =~= before);
        assert(after.last() == names@[i as int]@);
        if i > 0 {
            r.append(", ");
        } else {
            assert(r@ =~= Seq::<char>::empty());
        }
        r.append(names[i].as_str());
        i = i + 1;
    }
    assert(names@.take(i as int) =~= names@);
    r
}

/// Relies on chrono's `Local::now` and `DateTime::timestamp_millis`: the
/// current time in milliseconds since the Unix epoch. Nothing is promised of
/// its value.
#[verifier::external_body]
fn now_millis() -> (r: i64) {
    chrono::Local::now().timestamp_millis()
}

/// The plots of the dashboard, the port it listens on, and its log.
pub struct MultiPlot {
    pub port: u16,
    pub plots: Vec<RealTimePlot>,
    pub logs: Vec<LogEntry>,
}

/// What one pass over the columns `cols`, logged at `stamp`, makes of `before`:
/// every series gains the points its x- and y-axis columns pair up, and the log
/// gains the messages of the pass.
pub open spec fn pass_effect(
    before: MultiPlot,
    after: MultiPlot,
    cols: Seq<ColumnSamples>,
    stamp: i64,
) -> bool {
    &&& after.wf()
    &&& after.port == before.port
    &&& after.plots@.len() == before.plots@.len()
    &&& forall|p: int|
        0 <= p < after.plots@.len() ==> {
            let a = #[trigger] after.plots@[p];
            let b = before.plots@[p];
            &&& a.name == b.name
            &&& a.x_axis == b.x_axis
            &&& a.y_axis == b.y_axis
            &&& forall|j: int|
                0 <= j < a.series@.len() ==> #[trigger] a.series@[j]@ == b.series@[j]@
                    + added_points(cols, b.x_axis@, b.y_axis@[j]@)
        }
    &&& log_view(after.logs@) == log_view(before.logs@) + stamped(pass_messages(before.plots@, cols), stamp)
}

impl MultiPlot {
    pub open spec fn wf(&self) -> bool {
        forall|p: int| 0 <= p < self.plots@.len() ==> (#[trigger] self.plots@[p]).wf()
    }

    pub fn new(port: u16, plots: Vec<RealTimePlot>) -> (r: Self)
        requires
            forall|p: int| 0 <= p < plots@.len() ==> (#[trigger] plots@[p]).wf(),
        ensures
            r.wf(),
            r.port == port,
            r.plots == plots,
            r.logs@.len() == 0,
    {
        MultiPlot { port, plots, logs: Vec::new() }
    }

    /// Adds `s` to the log, stamped with the current time.
    pub fn append_log(&mut self, s: &str)
        ensures
            final(self).port == old(self).port,
            final(self).plots == old(self).plots,
            final(self).logs@.len() == old(self).logs@.len() + 1,
            final(self).logs@.take(old(self).logs@.len() as int) == old(self).logs@,
            final(self).logs@.last().message@ == s@,
    {
        let stamp = now_millis();
        self.logs.push(LogEntry { stamp, message: s.to_owned() });
        assert(self.logs@.take(old(self).logs@.len() as int) =~= old(self).logs@);
    }

    /// Empties every series of every plot.
    pub fn reset(&mut self)
        requires
            old(self).wf(),
        ensures
            final(self).wf(),
            final(self).port == old(self).port,
            final(self).logs == old(self).logs,
            final(self).plots@.len() == old(self).plots@.len(),
            forall|p: int|
                0 <= p < final(self).plots@.len() ==> {
                    let a = #[trigger] final(self).plots@[p];
                    let b = old(self).plots@[p];
                    &&& a.name == b.name
                    &&& a.x_axis == b.x_axis
                    &&& a.y_axis == b.y_axis
                    &&& a.series@.len() == b.series@.len()
                    &&& forall|j: int| 0 <= j < a.series@.len() ==> (#[trigger] a.series@[j])@.len() == 0
                },
    {
        let n = self.plots.len();
        let mut p: usize = 0;
        while p < n
            invariant
                n == self.plots@.len(),
                n == old(self).plots@.len(),
                p <= n,
                self.port == old(self).port,
                self.logs == old(self).logs,
                self.wf(),
                forall|q: int|
                    p <= q < n ==> #[trigger] self.plots@[q] == old(self).plots@[q],
                forall|q: int|
                    0 <= q < p ==> {
                        let a = #[trigger] self.plots@[q];
                        let b = old(self).plots@[q];
                        &&& a.name == b.name
                        &&& a.x_axis == b.x_axis
                        &&& a.y_axis == b.y_axis
                        &&& a.series@.len() == b.series@.len()
                        &&& forall|j: int|
                            0 <= j < a.series@.len() ==> (#[trigger] a.series@[j])@.len() == 0
                    },
            decreases n - p,
        {
            self.plots[p].clean_data();
            p = p + 1;
        }
    }

    /// One consumer pass over the columns drained from the channel: logs each
    /// rejected column, appends the paired points to every series, and logs
    /// the column names that no plot names. Returns how many samples the
    /// accepted columns held.
    pub fn process_pass(&mut self, cols: Vec<ColumnSamples>, stamp: i64) -> (r: usize)
        requires
            old(self).wf(),
        ensures
            pass_effect(*old(self), *final(self), cols@, stamp),
            r == saturated(sample_count(cols@)),
    {
        let mut count: usize = 0;
        let n = cols.len();
        let mut i: usize = 0;
        while i < n
            invariant
                n == cols@.len(),
                i <= n,
                self.port == old(self).port,
                self.plots == old(self).plots,
                log_view(self.logs@) == log_view(old(self).logs@) + stamped(error_messages(cols@.take(i as int)), stamp),
                count == saturated(sample_count(cols@.take(i as int))),
            decreases n - i,
        {
            let ghost prev = self.logs@;
            assert(cols@.take(i as int + 1).drop_last() =~= cols@.take(i as int));
            assert(cols@.take(i as int + 1).last() == cols@[i as int]);
            match &cols[i].samples {
                Ok(v) => {
                    if count > usize::MAX - v.len() {
                        count = usize::MAX;
                    } else {
                        count = count + v.len();
                    }
                    assert(error_messages(cols@.take(i as int + 1)) =~= error_messages(
                        cols@.take(i as int),
                    ));
                },
                Err(e) => {
                    let message = e.message();
                    self.logs.push(LogEntry { stamp, message });
                    assert(log_view(self.logs@) =~= log_view(prev).push((stamp, message@)));
                    assert(error_messages(cols@.take(i as int + 1)) =~= error_messages(
                        cols@.take(i as int),
                    ).push(message@));
                    assert(stamped(error_messages(cols@.take(i as int + 1)), stamp) =~= stamped(
                        error_messages(cols@.take(i as int)),
                        stamp,
                    ).push((stamp, message@)));
                },
            }
            i = i + 1;
        }
        assert(cols@.take(n as int) =~= cols@);
        let unknown = unknown_columns(&self.plots, &cols);
        let ghost logged = self.logs@;
        let np = self.plots.len();
        let mut p: usize = 0;
        while p < np
            invariant
                np == self.plots@.len(),
                np == old(self).plots@.len(),
                p <= np,
                self.port == old(self).port,
                self.logs@ == logged,
                self.wf(),
                forall|q: int| p <= q < np ==> #[trigger] self.plots@[q] == old(self).plots@[q],
                forall|q: int|
                    0 <= q < p ==> {
                        let a = #[trigger] self.plots@[q];
                        let b = old(self).plots@[q];
                        &&& a.name == b.name
                        &&& a.x_axis == b.x_axis
                        &&& a.y_axis == b.y_axis
                        &&& forall|j: int|
                            0 <= j < a.series@.len() ==> #[trigger] a.series@[j]@ == b.series@[j]@
                                + added_points(cols@, b.x_axis@, b.y_axis@[j]@)
                    },
            decreases np - p,
        {
            self.plots[p].update_points(&cols);
            p = p + 1;
        }
        let ghost mid = self.logs@;
        let ghost names_spec = unknown_names(old(self).plots@, cols@, cols@.len() as int);
        let ghost errs = error_messages(cols@);
        if unknown.len() > 0 {
            let mut message = String::from_str("Unknown column name: {");
            let names = join_names(&unknown);
            message.append(names.as_str());
            message.append("}");
            self.logs.push(LogEntry { stamp, message });
            assert(log_view(self.logs@) =~= log_view(mid).push((stamp, message@)));
            assert(message@ == unknown_text(names_spec));
            assert(pass_messages(old(self).plots@, cols@) =~= errs.push(message@));
            assert(stamped(pass_messages(old(self).plots@, cols@), stamp) =~= stamped(errs, stamp).push(
                (stamp, message@),
            ));
        } else {
            assert(pass_messages(old(self).plots@, cols@) =~= errs);
        }
        assert(log_view(self.logs@) =~= log_view(old(self).logs@) + stamped(
            pass_messages(old(self).plots@, cols@),
            stamp,
        ));
        count
    }
}

/// A column name that no entry of the pass has gets no samples.
pub proof fn lemma_lookup_absent(cols: Seq<ColumnSamples>, k: Seq<char>)
    requires
        forall|i: int| 0 <= i < cols.len() ==> (#[trigger] cols[i]).name@ != k,
    ensures
        lookup(cols, k) is None,
    decreases cols.len(),
{
    if cols.len() > 0 {
        assert(cols.last() == cols[cols.len() - 1]);
        lemma_lookup_absent(cols.drop_last(), k);
    }
}

/// The last entry of a name decides the samples of that name.
pub proof fn lemma_lookup_last(cols: Seq<ColumnSamples>, i: int)
    requires
        0 <= i < cols.len(),
        is_last_entry(cols, i),
    ensures
        lookup(cols, cols[i].name@) == match cols[i].samples {
            Ok(v) => Some(v@),
            Err(_) => None,
        },
    decreases cols.len(),
{
    if i < cols.len() - 1 {
        assert(cols.last() == cols[cols.len() - 1]);
        let rest = cols.drop_last();
        assert(rest[i] == cols[i]);
        assert forall|j: int| i < j < rest.len() implies (#[trigger] rest[j]).name@ != rest[i].name@ by {
            assert(rest[j] == cols[j]);
        }
        lemma_lookup_last(rest, i);
    }
}

/// Every name of a pass has a last entry.
pub proof fn lemma_has_last_entry(cols: Seq<ColumnSamples>, i: int)
    requires
        0 <= i < cols.len(),
    ensures
        exists|j: int| i <= j < cols.len() && cols[j].name@ == cols[i].name@ && is_last_entry(cols, j),
    decreases cols.len() - i,
{
    if !is_last_entry(cols, i) {
        let k = choose|k: int| i < k < cols.len() && (#[trigger] cols[k]).name@ == cols[i].name@;
        lemma_has_last_entry(cols, k);
    }
}

/// An unknown column is listed among the unknown names of every longer prefix.
pub proof fn lemma_unknown_listed(plots: Seq<RealTimePlot>, cols: Seq<ColumnSamples>, j: int, n: int)
    requires
        0 <= j < n,
        is_unknown(plots, cols, j),
    ensures
        unknown_names(plots, cols, n).contains(cols[j].name@),
    decreases n,
{
    let prev = unknown_names(plots, cols, n - 1);
    if j == n - 1 {
        let all = prev.push(cols[j].name@);
        assert(unknown_names(plots, cols, n) == all);
        assert(all[prev.len() as int] == cols[j].name@);
    } else {
        lemma_unknown_listed(plots, cols, j, n - 1);
        let k = choose|k: int| 0 <= k < prev.len() && prev[k] == cols[j].name@;
        assert(unknown_names(plots, cols, n)[k] == prev[k]);
    }
}

/// A pass whose columns were all accepted logs no parse error.
pub proof fn lemma_no_errors(cols: Seq<ColumnSamples>)
    requires
        forall|i: int| 0 <= i < cols.len() ==> (#[trigger] cols[i]).samples is Ok,
    ensures
        error_messages(cols).len() == 0,
    decreases cols.len(),
{
    if cols.len() > 0 {
        assert(cols.last() == cols[cols.len() - 1]);
        lemma_no_errors(cols.drop_last());
    }
}

/// A rejected column has its message among the parse errors of the pass.
pub proof fn lemma_error_listed(cols: Seq<ColumnSamples>, i: int)
    requires
        0 <= i < cols.len(),
        cols[i].samples is Err,
    ensures
        error_messages(cols).contains(
            parse_error_text(cols[i].samples->Err_0.token@, cols[i].samples->Err_0.reason@),
        ),
    decreases cols.len(),
{
    let m = parse_error_text(cols[i].samples->Err_0.token@, cols[i].samples->Err_0.reason@);
    let rest = error_messages(cols.drop_last());
    if i == cols.len() - 1 {
        assert(error_messages(cols) == rest.push(m));
        assert(error_messages(cols)[rest.len() as int] == m);
    } else {
        assert(cols.drop_last()[i] == cols[i]);
        lemma_error_listed(cols.drop_last(), i);
        let k = choose|k: int| 0 <= k < rest.len() && rest[k] == m;
        assert(error_messages(cols)[k] == m);
    }
}

/// After a pass in which both the x-axis column of plot `p` and its y-axis
/// column `j` have samples, that series has grown by exactly the length of the
/// shorter of the two sample sequences.
pub proof fn lemma_pass_growth(
    before: MultiPlot,
    after: MultiPlot,
    cols: Seq<ColumnSamples>,
    stamp: i64,
    p: int,
    j: int,
)
    requires
        before.wf(),
        pass_effect(before, after, cols, stamp),
        0 <= p < before.plots@.len(),
        0 <= j < before.plots@[p].y_axis@.len(),
        lookup(cols, before.plots@[p].x_axis@) is Some,
        lookup(cols, before.plots@[p].y_axis@[j]@) is Some,
    ensures
        ({
            let xs = lookup(cols, before.plots@[p].x_axis@)->Some_0;
            let ys = lookup(cols, before.plots@[p].y_axis@[j]@)->Some_0;
            let grown = if xs.len() < ys.len() {
                xs.len()
            } else {
                ys.len()
            };
            after.plots@[p].series@[j]@.len() == before.plots@[p].series@[j]@.len() + grown
        }),
{
    let a = after.plots@[p];
    let b = before.plots@[p];
    assert(b.wf());
    assert(a.series@[j]@ == b.series@[j]@ + added_points(cols, b.x_axis@, b.y_axis@[j]@));
}

/// A pass of accepted columns that no plot names leaves every series as it
/// was and logs exactly one entry, which lists those names.
pub proof fn lemma_unknown_only(
    before: MultiPlot,
    after: MultiPlot,
    cols: Seq<ColumnSamples>,
    stamp: i64,
)
    requires
        before.wf(),
        pass_effect(before, after, cols, stamp),
        cols.len() > 0,
        forall|i: int| 0 <= i < cols.len() ==> (#[trigger] cols[i]).samples is Ok,
        forall|i: int| 0 <= i < cols.len() ==> !named_by(before.plots@, (#[trigger] cols[i]).name@),
    ensures
        after.logs@.len() == before.logs@.len() + 1,
        log_view(after.logs@).last() == (
            stamp,
            unknown_text(unknown_names(before.plots@, cols, cols.len() as int)),
        ),
        forall|i: int|
            0 <= i < cols.len() ==> unknown_names(before.plots@, cols, cols.len() as int).contains(
                (#[trigger] cols[i]).name@,
            ),
        forall|p: int, j: int|
            0 <= p < after.plots@.len() && 0 <= j < after.plots@[p].series@.len()
                ==> after.plots@[p].series@[j]@ == before.plots@[p].series@[j]@,
{
    lemma_no_errors(cols);
    let n = cols.len() as int;
    assert(cols.last() == cols[n - 1]);
    assert(is_unknown(before.plots@, cols, n - 1));
    let names = unknown_names(before.plots@, cols, n);
    assert(names == unknown_names(before.plots@, cols, n - 1).push(cols[n - 1].name@));
    assert forall|i: int| 0 <= i < cols.len() implies names.contains((#[trigger] cols[i]).name@) by {
        lemma_has_last_entry(cols, i);
        let j = choose|j: int|
            i <= j < cols.len() && cols[j].name@ == cols[i].name@ && is_last_entry(cols, j);
        assert(cols[j].samples is Ok);
        assert(!named_by(before.plots@, cols[j].name@));
        lemma_unknown_listed(before.plots@, cols, j, n);
    }
    assert(pass_messages(before.plots@, cols) =~= seq![unknown_text(names)]);
    assert(log_view(after.logs@).len() == after.logs@.len());
    assert forall|p: int, j: int|
        0 <= p < after.plots@.len() && 0 <= j < after.plots@[p].series@.len()
            implies after.plots@[p].series@[j]@ == before.plots@[p].series@[j]@ by {
        let a = after.plots@[p];
        let b = before.plots@[p];
        assert(b.names(b.x_axis@));
        assert forall|i: int| 0 <= i < cols.len() implies (#[trigger] cols[i]).name@ != b.x_axis@ by {
            if cols[i].name@ == b.x_axis@ {
                assert(named_by(before.plots@, cols[i].name@));
            }
        }
        lemma_lookup_absent(cols, b.x_axis@);
        assert(a.series@[j]@ == b.series@[j]@ + added_points(cols, b.x_axis@, b.y_axis@[j]@));
        assert(a.series@[j]@ =~= b.series@[j]@);
    }
}

/// A rejected column whose name has no later entry in the pass adds no point
/// to any series that reads that column, and the pass logs its parse error.
pub proof fn lemma_rejected_column(
    before: MultiPlot,
    after: MultiPlot,
    cols: Seq<ColumnSamples>,
    stamp: i64,
    i: int,
)
    requires
        before.wf(),
        pass_effect(before, after, cols, stamp),
        0 <= i < cols.len(),
        cols[i].samples is Err,
        is_last_entry(cols, i),
    ensures
        lookup(cols, cols[i].name@) is None,
        forall|p: int, j: int|
            0 <= p < after.plots@.len() && 0 <= j < after.plots@[p].series@.len() && (
            before.plots@[p].x_axis@ == cols[i].name@ || before.plots@[p].y_axis@[j]@
                == cols[i].name@) ==> after.plots@[p].series@[j]@ == before.plots@[p].series@[j]@,
        log_view(after.logs@).contains(
            (
                stamp,
                parse_error_text(cols[i].samples->Err_0.token@, cols[i].samples->Err_0.reason@),
            ),
        ),
{
    lemma_lookup_last(cols, i);
    lemma_error_listed(cols, i);
    let m = parse_error_text(cols[i].samples->Err_0.token@, cols[i].samples->Err_0.reason@);
    let errs = error_messages(cols);
    let k = choose|k: int| 0 <= k < errs.len() && errs[k] == m;
    let msgs = pass_messages(before.plots@, cols);
    assert(msgs[k] == m);
    let at = log_view(before.logs@).len() + k;
    assert(log_view(after.logs@)[at] == (stamp, m));
    assert forall|p: int, j: int|
        0 <= p < after.plots@.len() && 0 <= j < after.plots@[p].series@.len() && (
        before.plots@[p].x_axis@ == cols[i].name@ || before.plots@[p].y_axis@[j]@
            == cols[i].name@) implies after.plots@[p].series@[j]@ == before.plots@[p].series@[j]@ by {
        let a = after.plots@[p];
        let b = before.plots@[p];
        assert(a.series@[j]@ == b.series@[j]@ + added_points(cols, b.x_axis@, b.y_axis@[j]@));
        assert(a.series@[j]@ =~= b.series@[j]@);
    }
}

} // verus!
