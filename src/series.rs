//! Append-only point sequences with a cached latest point.
use vstd::prelude::*;

verus! {

/// A point `(x, y)`, each coordinate the bit pattern of an `f64`.
pub type Point = (u64, u64);

/// The zero point: both coordinates `+0.0`.
pub open spec fn zero_point() -> Point {
    (0u64, 0u64)
}

/// The last point of `pts`, or the zero point when there is none.
pub open spec fn last_or_zero(pts: Seq<Point>) -> Point {
    if pts.len() == 0 {
        zero_point()
    } else {
        pts.last()
    }
}

/// The points of one y-axis curve of a plot.
pub struct SeriesBuffer {
    points: Vec<Point>,
    latest: Point,
}

impl View for SeriesBuffer {
    type V = Seq<Point>;

    closed spec fn view(&self) -> Seq<Point> {
        self.points@
    }
}

impl SeriesBuffer {
    /// The cached latest point.
    pub closed spec fn latest_spec(&self) -> Point {
        self.latest
    }

    /// The cached latest point is the last point, or the zero point.
    pub open spec fn wf(&self) -> bool {
        self.latest_spec() == last_or_zero(self@)
    }

    pub fn new() -> (r: Self)
        ensures
            r.wf(),
            r@ == Seq::<Point>::empty(),
    {
        SeriesBuffer { points: Vec::new(), latest: (0, 0) }
    }

    /// Extends the sequence with `pts`, in order; the latest point follows.
    pub fn append(&mut self, pts: Vec<Point>)
        requires
            old(self).wf(),
        ensures
            final(self).wf(),
            final(self)@ == old(self)@ + pts@,
            pts@.len() == 0 ==> final(self).latest_spec() == old(self).latest_spec(),
            pts@.len() > 0 ==> final(self).latest_spec() == pts@.last(),
    {
        let mut pts = pts;
        if pts.len() > 0 {
            self.latest = pts[pts.len() - 1];
        }
        self.points.append(&mut pts);
    }

    /// Empties the sequence; the latest point becomes the zero point.
    pub fn reset(&mut self)
        ensures
            final(self).wf(),
            final(self)@ == Seq::<Point>::empty(),
            final(self).latest_spec() == zero_point(),
    {
        self.points.clear();
        self.latest = (0, 0);
    }

    pub fn len(&self) -> (r: usize)
        ensures
            r == self@.len(),
    {
        self.points.len()
    }

    /// The point at `i`.
    pub fn point(&self, i: usize) -> (r: Point)
        requires
            i < self@.len(),
        ensures
            r == self@[i as int],
    {
        self.points[i]
    }

    /// A copy of every point, in order.
    pub fn points(&self) -> (r: Vec<Point>)
        ensures
            r@ == self@,
    {
        let mut out: Vec<Point> = Vec::new();
        let mut i: usize = 0;
        while i < self.points.len()
            invariant
                i <= self.points@.len(),
                out@ == self.points@.take(i as int),
            decreases self.points@.len() - i,
        {
            out.push(self.points[i]);
            assert(out@ =~= self.points@.take(i as int + 1));
            i = i + 1;
        }
        assert(self.points@.take(i as int) =~= self.points@);
        out
    }

    pub fn latest(&self) -> (r: Point)
        ensures
            r == self.latest_spec(),
    {
        self.latest
    }
}

/// A series of more points than this is drawn only in part.
pub const DRAW_ALL_UP_TO: usize = 100_000;

/// How many of the newest points are drawn of a series that is not drawn whole.
pub const DRAWN_TAIL: usize = 10_000;

/// The range `start..end` of the points to draw of a series of `len` points:
/// all of them up to `DRAW_ALL_UP_TO`, else the newest `DRAWN_TAIL`.
pub fn visible_window(len: usize) -> (r: (usize, usize))
    ensures
        r.1 == len,
        len <= DRAW_ALL_UP_TO ==> r.0 == 0,
        len > DRAW_ALL_UP_TO ==> r.0 == len - DRAWN_TAIL,
{
    if len <= DRAW_ALL_UP_TO {
        (0, len)
    } else {
        (len - DRAWN_TAIL, len)
    }
}

/// Whatever was appended, the cached latest point is the last point of the
/// sequence, or the zero point when the sequence is empty.
pub proof fn lemma_latest_is_last(b: &SeriesBuffer)
    requires
        b.wf(),
    ensures
        b.latest_spec() == last_or_zero(b@),
        b@.len() > 0 ==> b.latest_spec() == b@[b@.len() - 1],
        b@.len() == 0 ==> b.latest_spec() == zero_point(),
{
}

/// Resetting twice leaves the buffer as one reset does: `once` is what a reset
/// left (empty, zero latest point), and `twice` is what a reset of `once` left.
pub proof fn lemma_reset_idempotent(once: SeriesBuffer, twice: SeriesBuffer)
    requires
        once@ == Seq::<Point>::empty(),
        once.latest_spec() == zero_point(),
        twice@ == Seq::<Point>::empty(),
        twice.latest_spec() == zero_point(),
    ensures
        twice@ == once@,
        twice.latest_spec() == once.latest_spec(),
        twice.wf(),
{
}

} // verus!
