//! Plots: one x-axis column shared by one or more y-axis series.
use vstd::prelude::*;
use crate::samples::{strings_view, ParseError};
use crate::series::{Point, SeriesBuffer};

verus! {

/// The samples of one column in one pass, or why its raw value was rejected.
pub struct ColumnSamples {
    pub name: String,
    pub samples: Result<Vec<u64>, ParseError>,
}

/// The samples of column `k` in a pass: the last entry named `k` decides, and
/// an entry that was rejected leaves the column without samples.
pub open spec fn lookup(cols: Seq<ColumnSamples>, k: Seq<char>) -> Option<Seq<u64>>
    decreases cols.len(),
{
    if cols.len() == 0 {
        None
    } else if cols.last().name@ == k {
        match cols.last().samples {
            Ok(v) => Some(v@),
            Err(_) => None,
        }
    } else {
        lookup(cols.drop_last(), k)
    }
}

/// Pairs `xs` and `ys` by index; the shorter one sets the length.
pub open spec fn zip_points(xs: Seq<u64>, ys: Seq<u64>) -> Seq<Point> {
    let n = if xs.len() < ys.len() {
        xs.len()
    } else {
        ys.len()
    };
    Seq::new(n, |i: int| (xs[i], ys[i]))
}

/// The points that a pass adds to the series of y-axis column `y` in a plot
/// whose x-axis column is `x`.
pub open spec fn added_points(cols: Seq<ColumnSamples>, x: Seq<char>, y: Seq<char>) -> Seq<Point> {
    match (lookup(cols, x), lookup(cols, y)) {
        (Some(xs), Some(ys)) => zip_points(xs, ys),
        _ => Seq::empty(),
    }
}

/// No y-axis column is named twice, and none is the x-axis column.
pub open spec fn axes_distinct(x: Seq<char>, ys: Seq<Seq<char>>) -> bool {
    &&& forall|j: int| 0 <= j < ys.len() ==> ys[j] != x
    &&& forall|i: int, j: int| 0 <= i < j < ys.len() ==> ys[i] != ys[j]
}

/// Finds the samples of column `k` among the columns of a pass.
pub fn lookup_column<'a>(cols: &'a Vec<ColumnSamples>, k: &String) -> (r: Option<&'a Vec<u64>>)
    ensures
        match r {
            Some(v) => lookup(cols@, k@) == Some(v@),
            None => lookup(cols@, k@) is None,
        },
{
    let mut i: usize = cols.len();
    assert(cols@.take(i as int) =~= cols@);
    while i > 0
        invariant
            i <= cols@.len(),
            lookup(cols@, k@) == lookup(cols@.take(i as int), k@),
        decreases i,
    {
        let c = &cols[i - 1];
        proof {
            assert(cols@.take(i as int).last() == cols@[i - 1]);
            assert(cols@.take(i as int).drop_last() =~= cols@.take(i - 1));
        }
        if c.name == *k {
            match &c.samples {
                Ok(v) => {
                    return Some(v);
                },
                Err(_) => {
                    return None;
                },
            }
        }
        i = i - 1;
    }
    None
}

/// Pairs two sample sequences by index into points.
pub fn zip_samples(xs: &Vec<u64>, ys: &Vec<u64>) -> (r: Vec<Point>)
    ensures
        r@ == zip_points(xs@, ys@),
{
    let n = if xs.len() < ys.len() {
        xs.len()
    } else {
        ys.len()
    };
    let mut out: Vec<Point> = Vec::new();
    let mut i: usize = 0;
    while i < n
        invariant
            i <= n,
            n <= xs@.len(),
            n <= ys@.len(),
            out@ =~= Seq::new(i as nat, |k: int| (xs@[k], ys@[k])),
        decreases n - i,
    {
        out.push((xs[i], ys[i]));
        i = i + 1;
    }
    assert(out@ =~= zip_points(xs@, ys@));
    out
}

/// One plot: a display name, an x-axis column, and one series per y-axis
/// column, in the order of `y_axis`.
pub struct RealTimePlot {
    pub name: String,
    pub x_axis: String,
    pub y_axis: Vec<String>,
    pub series: Vec<SeriesBuffer>,
}

impl RealTimePlot {
    pub open spec fn wf(&self) -> bool {
        &&& self.series@.len() == self.y_axis@.len()
        &&& forall|j: int| 0 <= j < self.series@.len() ==> (#[trigger] self.series@[j]).wf()
        &&& axes_distinct(self.x_axis@, strings_view(self.y_axis@))
    }

    /// Column `k` is this plot's x-axis column or one of its y-axis columns.
    pub open spec fn names(&self, k: Seq<char>) -> bool {
        self.x_axis@ == k || exists|j: int| 0 <= j < self.y_axis@.len() && self.y_axis@[j]@ == k
    }

    /// A plot with empty series; refused when two axes share a column name.
    pub fn new(name: String, x_axis: String, y_axis: Vec<String>) -> (r: Option<Self>)
        ensures
            r is Some <==> axes_distinct(x_axis@, strings_view(y_axis@)),
            r is Some ==> {
                let p = r->Some_0;
                &&& p.wf()
                &&& p.name == name
                &&& p.x_axis == x_axis
                &&& p.y_axis == y_axis
                &&& forall|j: int| 0 <= j < p.series@.len() ==> p.series@[j]@.len() == 0
            },
    {
        let n = y_axis.len();
        let mut i: usize = 0;
        while i < n
            invariant
                n == y_axis@.len(),
                i <= n,
                forall|j: int| 0 <= j < i ==> y_axis@[j]@ != x_axis@,
                forall|a: int, b: int| 0 <= a < b < n && a < i ==> y_axis@[a]@ != y_axis@[b]@,
            decreases n - i,
        {
            if y_axis[i] == x_axis {
                assert(strings_view(y_axis@)[i as int] == y_axis@[i as int]@);
                return None;
            }
            let mut k: usize = i + 1;
            while k < n
                invariant
                    n == y_axis@.len(),
                    i < n,
                    i < k <= n,
                    forall|b: int| i < b < k ==> y_axis@[i as int]@ != y_axis@[b]@,
                decreases n - k,
            {
                if y_axis[i] == y_axis[k] {
                    assert(strings_view(y_axis@)[i as int] == y_axis@[i as int]@);
                    assert(strings_view(y_axis@)[k as int] == y_axis@[k as int]@);
                    return None;
                }
                k = k + 1;
            }
            i = i + 1;
        }
        let mut series: Vec<SeriesBuffer> = Vec::new();
        let mut j: usize = 0;
        while j < n
            invariant
                j <= n,
                series@.len() == j,
                forall|q: int| 0 <= q < j ==> (#[trigger] series@[q]).wf() && series@[q]@.len() == 0,
            decreases n - j,
        {
            series.push(SeriesBuffer::new());
            j = j + 1;
        }
        Some(RealTimePlot { name, x_axis, y_axis, series })
    }

    /// Appends to each series the points of one pass: the plot's x-axis
    /// samples paired by index with that series' y-axis samples.
    pub fn update_points(&mut self, cols: &Vec<ColumnSamples>)
        requires
            old(self).wf(),
        ensures
            final(self).wf(),
            final(self).name == old(self).name,
            final(self).x_axis == old(self).x_axis,
            final(self).y_axis == old(self).y_axis,
            forall|j: int|
                0 <= j < final(self).series@.len() ==> #[trigger] final(self).series@[j]@ == old(
                    self,
                ).series@[j]@ + added_points(cols@, old(self).x_axis@, old(self).y_axis@[j]@),
    {
        let ghost before = self.series@;
        let xs = lookup_column(cols, &self.x_axis);
        match xs {
            Some(xs) => {
                let n = self.y_axis.len();
                let mut j: usize = 0;
                while j < n
                    invariant
                        n == self.y_axis@.len(),
                        j <= n,
                        self.series@.len() == n,
                        self.name == old(self).name,
                        self.x_axis == old(self).x_axis,
                        self.y_axis == old(self).y_axis,
                        axes_distinct(self.x_axis@, strings_view(self.y_axis@)),
                        before == old(self).series@,
                        lookup(cols@, self.x_axis@) == Some(xs@),
                        forall|q: int| 0 <= q < n ==> (#[trigger] self.series@[q]).wf(),
                        forall|q: int|
                            0 <= q < j ==> #[trigger] self.series@[q]@ == before[q]@ + added_points(
                                cols@,
                                self.x_axis@,
                                self.y_axis@[q]@,
                            ),
                        forall|q: int| j <= q < n ==> #[trigger] self.series@[q]@ == before[q]@,
                    decreases n - j,
                {
                    let ys = lookup_column(cols, &self.y_axis[j]);
                    match ys {
                        Some(ys) => {
                            let pts = zip_samples(xs, ys);
                            self.series[j].append(pts);
                        },
                        None => {},
                    }
                    j = j + 1;
                }
            },
            None => {
                assert forall|j: int| 0 <= j < self.series@.len() implies #[trigger] self.series@[j]@
                    == before[j]@ + added_points(cols@, self.x_axis@, self.y_axis@[j]@) by {
                    assert(before[j]@ + Seq::<Point>::empty() =~= before[j]@);
                }
            },
        }
    }

    /// Appends `pts` to the series of y-axis column `name`; a name that is no
    /// y-axis column of this plot changes nothing.
    pub fn append(&mut self, name: &String, pts: Vec<Point>)
        requires
            old(self).wf(),
        ensures
            final(self).wf(),
            final(self).name == old(self).name,
            final(self).x_axis == old(self).x_axis,
            final(self).y_axis == old(self).y_axis,
            forall|j: int|
                0 <= j < final(self).series@.len() ==> #[trigger] final(self).series@[j]@ == if old(
                    self,
                ).y_axis@[j]@ == name@ {
                    old(self).series@[j]@ + pts@
                } else {
                    old(self).series@[j]@
                },
    {
        let n = self.y_axis.len();
        let mut j: usize = 0;
        while j < n
            invariant
                n == self.y_axis@.len(),
                j <= n,
                *self == *old(self),
                self.wf(),
                forall|q: int| 0 <= q < j ==> self.y_axis@[q]@ != name@,
            decreases n - j,
        {
            if self.y_axis[j] == *name {
                proof {
                    assert forall|q: int| 0 <= q < n && q != j implies self.y_axis@[q]@ != name@ by {
                        let ys = strings_view(self.y_axis@);
                        assert(ys[q] == self.y_axis@[q]@);
                        assert(ys[j as int] == self.y_axis@[j as int]@);
                        if q < j {
                            assert(ys[q] != ys[j as int]);
                        } else {
                            assert(ys[j as int] != ys[q]);
                        }
                    }
                }
                self.series[j].append(pts);
                return;
            }
            j = j + 1;
        }
    }

    /// Empties every series of the plot.
    pub fn clean_data(&mut self)
        requires
            old(self).wf(),
        ensures
            final(self).wf(),
            final(self).name == old(self).name,
            final(self).x_axis == old(self).x_axis,
            final(self).y_axis == old(self).y_axis,
            final(self).series@.len() == old(self).series@.len(),
            forall|j: int|
                0 <= j < final(self).series@.len() ==> (#[trigger] final(self).series@[j])@.len()
                    == 0,
    {
        let n = self.series.len();
        let mut j: usize = 0;
        while j < n
            invariant
                n == self.series@.len(),
                j <= n,
                self.name == old(self).name,
                self.x_axis == old(self).x_axis,
                self.y_axis == old(self).y_axis,
                n == self.y_axis@.len(),
                axes_distinct(self.x_axis@, strings_view(self.y_axis@)),
                forall|q: int| 0 <= q < n ==> (#[trigger] self.series@[q]).wf(),
                forall|q: int| 0 <= q < j ==> (#[trigger] self.series@[q])@.len() == 0,
            decreases n - j,
        {
            self.series[j].reset();
            j = j + 1;
        }
    }

    /// The x-axis column followed by the y-axis columns.
    pub fn all_axis_names(&self) -> (r: Vec<String>)
        ensures
            strings_view(r@) == seq![self.x_axis@] + strings_view(self.y_axis@),
    {
        let mut r: Vec<String> = Vec::new();
        r.push(self.x_axis.clone());
        let mut j: usize = 0;
        while j < self.y_axis.len()
            invariant
                j <= self.y_axis@.len(),
                strings_view(r@) == seq![self.x_axis@] + strings_view(self.y_axis@.take(j as int)),
            decreases self.y_axis@.len() - j,
        {
            let ghost prev = r@;
            r.push(self.y_axis[j].clone());
            assert(strings_view(r@) =~= strings_view(prev).push(self.y_axis@[j as int]@));
            assert(strings_view(self.y_axis@.take(j as int + 1)) =~= strings_view(
                self.y_axis@.take(j as int),
            ).push(self.y_axis@[j as int]@));
            j = j + 1;
        }
        assert(self.y_axis@.take(j as int) =~= self.y_axis@);
        r
    }
}

} // verus!
