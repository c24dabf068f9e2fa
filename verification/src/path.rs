//! Arc-length parameterized polylines with logarithmic position queries.

use vstd::prelude::*;

verus! {

use crate::math::{
    Vec3, v3_lerp, v3_mag, v3_sub, s_add, s_div, s_sub, v3_magsq,
    vec3_lerp, vec3_mag, vec3_sub, fx_add, fx_div, fx_sub,
    lemma_magsq_nonneg, lemma_isqrt, isqrt, coord_in_half_range,
    lemma_s_div_self, lemma_v3_lerp_one, lemma_v3_lerp_zero,
};

/// One drawable line segment, from its first point to its second.
pub type Line = (Vec3, Vec3);

/// A polyline segment's place along the path: the distance at which it
/// starts and its own length.
#[derive(Clone, Copy, Debug, PartialEq, Eq, Structural)]
pub struct PathEntry {
    pub position: i64,
    pub length: i64,
}

/// Length of the line from `a` to `b`.
pub open spec fn seg_len(a: Vec3, b: Vec3) -> i64 {
    v3_mag(v3_sub(b, a))
}

/// Start distance of line `i`: the saturating sum of the lengths of the
/// lines before it.
pub open spec fn pos_of_line(points: Seq<Vec3>, i: int) -> i64
    decreases i,
{
    if i <= 0 {
        0
    } else {
        s_add(pos_of_line(points, i - 1), seg_len(points[i - 1], points[i]))
    }
}

/// A segment length is a square root: non-negative, and far below `i64::MAX`.
pub proof fn lemma_seg_len_bounds(a: Vec3, b: Vec3)
    ensures
        0 <= seg_len(a, b) < 0x10000000000,
{
    let v = v3_sub(b, a);
    lemma_magsq_nonneg(v);
    let m = v3_magsq(v);
    let n = (m * 65536) as nat;
    lemma_isqrt(n);
    if isqrt(n) >= 0x10000000000 {
        assert(isqrt(n) * isqrt(n) >= 0x100000000000000000000) by (nonlinear_arith)
            requires
                isqrt(n) >= 0x10000000000,
        ;
    }
}

/// Start distances never decrease, and start from zero.
pub proof fn lemma_pos_of_line_bounds(points: Seq<Vec3>, i: int)
    ensures
        0 <= pos_of_line(points, i),
    decreases i,
{
    if i > 0 {
        lemma_pos_of_line_bounds(points, i - 1);
        lemma_seg_len_bounds(points[i - 1], points[i]);
    }
}

/// Start distances never move backward along the point sequence.
pub proof fn lemma_pos_of_line_nondecreasing(points: Seq<Vec3>, i: int, j: int)
    requires
        0 <= i <= j,
    ensures
        pos_of_line(points, i) <= pos_of_line(points, j),
    decreases j - i,
{
    if i < j {
        lemma_pos_of_line_nondecreasing(points, i, j - 1);
        lemma_seg_len_bounds(points[j - 1], points[j]);
    }
}

/// As long as the running total has not saturated, every cumulative start
/// distance is the exact integer sum of the segment lengths before it.
pub proof fn lemma_positions_exact(points: Seq<Vec3>, n: int)
    requires
        0 <= n,
        pos_of_line(points, n) < i64::MAX,
    ensures
        forall|i: int|
            0 <= i < n ==> (#[trigger] pos_of_line(points, i)) + seg_len(points[i], points[i + 1])
                == pos_of_line(points, i + 1),
    decreases n,
{
    if n > 0 {
        lemma_pos_of_line_bounds(points, n - 1);
        lemma_seg_len_bounds(points[n - 1], points[n]);
        assert(pos_of_line(points, n) == pos_of_line(points, n - 1) + seg_len(
            points[n - 1],
            points[n],
        ));
        lemma_positions_exact(points, n - 1);
    }
}

/// An immutable polyline indexed by cumulative traveled distance. Each
/// line's start distance and length are derived from the points once, at
/// construction; queries then binary-search the distance table.
#[derive(Clone, Debug)]
pub struct Path {
    pub points: Vec<Vec3>,
    pub lines: Vec<PathEntry>,
    pub length: i64,
}

impl Path {
    /// Construction shape: one line per consecutive point pair, each
    /// recording its start distance and length, with `length` the total.
    pub open spec fn wf(self) -> bool {
        &&& self.lines@.len() == (if self.points@.len() == 0 {
            0int
        } else {
            self.points@.len() - 1
        })
        &&& (forall|i: int|
            0 <= i < self.lines@.len() ==> #[trigger] self.lines@[i] == (PathEntry {
                position: pos_of_line(self.points@, i),
                length: seg_len(self.points@[i], self.points@[i + 1]),
            }))
        &&& self.length == pos_of_line(self.points@, self.lines@.len() as int)
    }

    /// Distance at which line `i` ends.
    pub open spec fn end_of_line(self, i: int) -> i64 {
        s_add(self.lines@[i].position, self.lines@[i].length)
    }

    /// The first line index at or after `i` whose end lies at or past
    /// `position`.
    pub open spec fn seg_idx_from(self, position: i64, i: int) -> int
        decreases self.lines@.len() - i,
    {
        if i >= self.lines@.len() {
            i
        } else if position <= self.end_of_line(i) {
            i
        } else {
            self.seg_idx_from(position, i + 1)
        }
    }

    /// The line that contains `position`: the least index whose end lies at
    /// or past it. Ties at a shared boundary resolve to the earlier line.
    pub open spec fn seg_idx(self, position: i64) -> int {
        self.seg_idx_from(position, 0)
    }

    proof fn lemma_seg_idx_from_props(self, position: i64, i: int)
        requires
            0 <= i <= self.lines@.len(),
        ensures
            i <= self.seg_idx_from(position, i) <= self.lines@.len(),
            forall|j: int|
                i <= j < self.seg_idx_from(position, i) ==> position > #[trigger] self.end_of_line(
                    j,
                ),
            self.seg_idx_from(position, i) < self.lines@.len() ==> position <= self.end_of_line(
                self.seg_idx_from(position, i),
            ),
        decreases self.lines@.len() - i,
    {
        if i >= self.lines@.len() {
        } else if position <= self.end_of_line(i) {
        } else {
            self.lemma_seg_idx_from_props(position, i + 1);
        }
    }

    /// Under `wf`, the end of line `i` is the start of line `i + 1`.
    proof fn lemma_end_is_next_pos(self, i: int)
        requires
            self.wf(),
            0 <= i < self.lines@.len(),
        ensures
            self.end_of_line(i) == pos_of_line(self.points@, i + 1),
    {
    }

    /// Line ends never decrease along the path.
    proof fn lemma_end_monotone(self, i: int, j: int)
        requires
            self.wf(),
            0 <= i <= j < self.lines@.len(),
        ensures
            self.end_of_line(i) <= self.end_of_line(j),
        decreases j - i,
    {
        if i < j {
            self.lemma_end_monotone(i, j - 1);
            self.lemma_end_is_next_pos(j - 1);
            lemma_seg_len_bounds(self.points@[j], self.points@[j + 1]);
        }
    }

    /// An in-range query always lands on a real line.
    proof fn lemma_seg_idx_in_range(self, position: i64)
        requires
            self.wf(),
            self.lines@.len() > 0,
            0 <= position <= self.length,
        ensures
            0 <= self.seg_idx(position) < self.lines@.len(),
            position <= self.end_of_line(self.seg_idx(position)),
    {
        self.lemma_seg_idx_from_props(position, 0);
        let n = self.lines@.len() as int;
        self.lemma_end_is_next_pos(n - 1);
        if self.seg_idx(position) == n {
            assert(position > self.end_of_line(n - 1));
        }
    }

    /// The query index never moves backward as the position grows.
    ///
    /// For any two in-range positions `d1 <= d2`, the line found for `d1`
    /// lies at or before the line found for `d2`.
    pub proof fn lemma_seg_idx_monotone(self, d1: i64, d2: i64)
        requires
            self.wf(),
            self.lines@.len() > 0,
            0 <= d1 <= d2 <= self.length,
        ensures
            self.seg_idx(d1) <= self.seg_idx(d2),
    {
        self.lemma_seg_idx_from_props(d1, 0);
        self.lemma_seg_idx_from_props(d2, 0);
        self.lemma_seg_idx_in_range(d1);
        self.lemma_seg_idx_in_range(d2);
        if self.seg_idx(d2) < self.seg_idx(d1) {
            assert(d1 > self.end_of_line(self.seg_idx(d2)));
        }
    }

    /// Build a path from an ordered point sequence. Fewer than two points
    /// yield a degenerate path of zero length and no lines.
    pub fn new(points: Vec<Vec3>) -> (r: Path)
        ensures
            r.wf(),
            r.points@ == points@,
    {
        let n: usize = points.len();
        let mut lines: Vec<PathEntry> = Vec::new();
        let mut position: i64 = 0;
        if n > 0 {
            let mut i: usize = 0;
            while i < n - 1
                invariant
                    n == points@.len(),
                    n > 0,
                    i <= n - 1,
                    lines@.len() == i as int,
                    forall|j: int|
                        0 <= j < i ==> #[trigger] lines@[j] == (PathEntry {
                            position: pos_of_line(points@, j),
                            length: seg_len(points@[j], points@[j + 1]),
                        }),
                    position == pos_of_line(points@, i as int),
                decreases n - 1 - i,
            {
                let len: i64 = vec3_mag(vec3_sub(points[i + 1], points[i]));
                lines.push(PathEntry { position, length: len });
                position = fx_add(position, len);
                i = i + 1;
            }
        }
        Path { points, lines, length: position }
    }

    /// The line containing `position`, by binary search over the distance
    /// table. No result when the path has no lines or `position` lies
    /// outside `[0, total length]`. A position exactly on a shared boundary
    /// resolves to the earlier line.
    pub fn nearest_line_idx(&self, position: i64) -> (r: Option<usize>)
        requires
            self.wf(),
        ensures
            r.is_some() <==> (self.lines@.len() > 0 && 0 <= position <= self.length),
            r.is_some() ==> r.unwrap() as int == self.seg_idx(position) && (r.unwrap() as int)
                < self.lines@.len(),
    {
        if self.lines.len() == 0 || position < 0 || position > self.length {
            return None;
        }
        let mut lo: usize = 0;
        let mut hi: usize = self.lines.len();
        while lo < hi
            invariant
                self.wf(),
                self.lines@.len() > 0,
                0 <= position <= self.length,
                lo <= hi <= self.lines@.len(),
                forall|j: int| 0 <= j < lo ==> position > #[trigger] self.end_of_line(j),
                forall|j: int|
                    hi <= j < self.lines@.len() ==> position <= #[trigger] self.end_of_line(j),
            decreases hi - lo,
        {
            let mid: usize = lo + (hi - lo) / 2;
            let e = self.lines[mid];
            let end_mid: i64 = fx_add(e.position, e.length);
            if end_mid < position {
                proof {
                    assert(end_mid == self.end_of_line(mid as int));
                    assert forall|j: int| 0 <= j < mid + 1 implies position > #[trigger] self
                        .end_of_line(j) by {
                        if j >= lo {
                            self.lemma_end_monotone(j, mid as int);
                        }
                    }
                }
                lo = mid + 1;
            } else {
                proof {
                    assert forall|j: int|
                        mid <= j < self.lines@.len() implies position <= #[trigger] self
                        .end_of_line(j) by {
                        self.lemma_end_monotone(mid as int, j);
                    }
                }
                hi = mid;
            }
        }
        proof {
            self.lemma_seg_idx_in_range(position);
            self.lemma_seg_idx_from_props(position, 0);
            let k = self.seg_idx(position);
            if k < lo {
                assert(position > self.end_of_line(k));
            }
            if k > lo {
                assert(position > self.end_of_line(lo as int));
            }
        }
        Some(lo)
    }

    /// The point at distance `position` along the path, interpolated within
    /// the line that contains it.
    pub open spec fn point_at_spec(self, position: i64) -> Vec3
        recommends
            self.wf(),
            self.lines@.len() > 0,
            0 <= position <= self.length,
    {
        let i = self.seg_idx(position);
        let e = self.lines@[i];
        if e.length == 0 {
            self.points@[i]
        } else {
            v3_lerp(
                self.points@[i],
                self.points@[i + 1],
                s_div(s_sub(position, e.position), e.length),
            )
        }
    }

    /// The point at distance `position` along the path. Defined for every
    /// `position` in `[0, total length]` on a path with at least one line,
    /// and for no other query.
    pub fn point_at_position(&self, position: i64) -> (r: Option<Vec3>)
        requires
            self.wf(),
        ensures
            r.is_some() <==> (self.lines@.len() > 0 && 0 <= position <= self.length),
            r.is_some() ==> r.unwrap() == self.point_at_spec(position),
    {
        match self.nearest_line_idx(position) {
            None => None,
            Some(idx) => {
                proof {
                    assert((idx as int) < self.lines@.len());
                    assert(self.points@.len() == self.lines@.len() + 1);
                }
                let nl: usize = self.lines.len();
                assert(idx < nl);
                let e = self.lines[idx];
                if e.length == 0 {
                    Some(self.points[idx])
                } else {
                    let off: i64 = fx_div(fx_sub(position, e.position), e.length);
                    Some(vec3_lerp(self.points[idx], self.points[idx + 1], off))
                }
            },
        }
    }

    /// The sub-polyline visible between distances `begin` and `end`: the
    /// partial line from `begin` to the end of its line, every whole line
    /// strictly between, and the partial line from the start of `end`'s
    /// line to `end`; one single interpolated piece when both fall within
    /// the same line.
    pub open spec fn lines_between_spec(self, begin: i64, end: i64) -> Option<Seq<Line>> {
        if begin > end || self.lines@.len() == 0 || begin < 0 || end > self.length {
            None
        } else {
            let i1 = self.seg_idx(begin);
            let i2 = self.seg_idx(end);
            let bp = self.point_at_spec(begin);
            let ep = self.point_at_spec(end);
            if i1 == i2 {
                Some(seq![(bp, ep)])
            } else {
                Some(
                    seq![(bp, self.points@[i1 + 1])] + Seq::new(
                        (i2 - i1 - 1) as nat,
                        |k: int| (self.points@[i1 + 1 + k], self.points@[i1 + 2 + k]),
                    ) + seq![(self.points@[i2], ep)],
                )
            }
        }
    }

    /// The line segments that redraw the part of the path between `begin`
    /// and `end`. No result when `begin > end` (a caller contract
    /// violation), when the window leaves `[0, total length]`, or on a
    /// degenerate path.
    pub fn lines_between(&self, begin: i64, end: i64) -> (r: Option<Vec<Line>>)
        requires
            self.wf(),
        ensures
            r.is_some() <==> (self.lines@.len() > 0 && 0 <= begin <= end <= self.length),
            r.is_some() ==> self.lines_between_spec(begin, end).is_some() && r.unwrap()@ == self
                .lines_between_spec(begin, end).unwrap(),
    {
        if begin > end {
            return None;
        }
        let bi: usize = match self.nearest_line_idx(begin) {
            Some(i) => i,
            None => {
                return None;
            },
        };
        let ei: usize = match self.nearest_line_idx(end) {
            Some(i) => i,
            None => {
                return None;
            },
        };
        let bp: Vec3 = match self.point_at_position(begin) {
            Some(p) => p,
            None => {
                return None;
            },
        };
        let ep: Vec3 = match self.point_at_position(end) {
            Some(p) => p,
            None => {
                return None;
            },
        };
        proof {
            self.lemma_seg_idx_monotone(begin, end);
            assert(self.points@.len() == self.lines@.len() + 1);
        }
        let nl: usize = self.lines.len();
        let mut v: Vec<Line> = Vec::new();
        if bi == ei {
            v.push((bp, ep));
            proof {
                assert(v@ =~= self.lines_between_spec(begin, end).unwrap());
            }
            Some(v)
        } else {
            v.push((bp, self.points[bi + 1]));
            let mut k: usize = bi + 1;
            while k < ei
                invariant
                    self.wf(),
                    bi < ei < self.lines@.len(),
                    self.points@.len() == self.lines@.len() + 1,
                    bi + 1 <= k <= ei,
                    v@.len() == k - bi,
                    v@[0] == (bp, self.points@[bi + 1]),
                    forall|j: int|
                        1 <= j < v@.len() ==> #[trigger] v@[j] == (
                        self.points@[bi + j],
                        self.points@[bi + j + 1],
                        ),
                decreases ei - k,
            {
                v.push((self.points[k], self.points[k + 1]));
                k = k + 1;
            }
            v.push((self.points[ei], ep));
            proof {
                assert(v@ =~= self.lines_between_spec(begin, end).unwrap());
            }
            Some(v)
        }
    }

    /// Round trip: querying the path at a point's own cumulative distance
    /// returns that point exactly.
    ///
    /// This holds wherever the arithmetic is exact: no segment so short
    /// that its length rounds to zero, a total length below the saturation
    /// bound, and coordinates small enough that a single difference of two
    /// of them is representable.
    pub proof fn lemma_point_at_round_trip(self, k: int)
        requires
            self.wf(),
            self.lines@.len() > 0,
            self.length < i64::MAX,
            forall|i: int| 0 <= i < self.lines@.len() ==> (#[trigger] self.lines@[i]).length > 0,
            forall|i: int|
                0 <= i < self.points@.len() ==> coord_in_half_range(#[trigger] self.points@[i]),
            0 <= k < self.points@.len(),
        ensures
            self.point_at_spec(pos_of_line(self.points@, k)) == self.points@[k],
    {
        let pts = self.points@;
        let n = self.lines@.len() as int;
        assert(self.length == pos_of_line(pts, n));
        lemma_positions_exact(pts, n);
        let pos = pos_of_line(pts, k);
        assert forall|j: int| 0 <= j < n implies #[trigger] self.end_of_line(j) == pos_of_line(
            pts,
            j + 1,
        ) by {
            self.lemma_end_is_next_pos(j);
        }
        if k == 0 {
            lemma_pos_of_line_bounds(pts, 1);
            assert(self.seg_idx(0) == 0);
            let e = self.lines@[0];
            assert(e.length > 0);
            assert(e.position == 0);
            assert(s_sub(0, 0) == 0);
            assert(s_div(0, e.length) == 0) by {
                vstd::arithmetic::div_mod::lemma_div_of0(e.length as int);
            }
            lemma_v3_lerp_zero(pts[0], pts[1]);
        } else {
            self.lemma_seg_idx_from_props(pos, 0);
            let s = self.seg_idx(pos);
            assert(self.lines@[k - 1].length == seg_len(pts[k - 1], pts[k]));
            assert(pos == pos_of_line(pts, k - 1) + seg_len(pts[k - 1], pts[k]));
            assert(pos == self.end_of_line(k - 1));
            assert forall|j: int| 0 <= j < k - 1 implies pos > #[trigger] self.end_of_line(j) by {
                lemma_pos_of_line_nondecreasing(pts, j + 1, k - 1);
                lemma_pos_of_line_bounds(pts, j + 1);
            }
            if s < k - 1 {
                assert(pos <= self.end_of_line(s));
                assert(pos > self.end_of_line(s));
            }
            if s > k - 1 {
                assert(pos > self.end_of_line(k - 1));
            }
            assert(s == k - 1);
            let e = self.lines@[k - 1];
            lemma_pos_of_line_bounds(pts, k - 1);
            lemma_seg_len_bounds(pts[k - 1], pts[k]);
            assert(s_sub(pos, e.position) == e.length);
            lemma_s_div_self(e.length);
            lemma_v3_lerp_one(pts[k - 1], pts[k]);
        }
    }

    /// Laid end to end, the segments of `lines_between` reconstruct the
    /// polyline between its two query points: the first segment starts at
    /// the point found for `begin`, each segment ends where the next one
    /// starts, and the last segment ends at the point found for `end`.
    pub proof fn lemma_lines_between_chain(self, begin: i64, end: i64)
        requires
            self.wf(),
            self.lines_between_spec(begin, end).is_some(),
        ensures
            ({
                let v = self.lines_between_spec(begin, end).unwrap();
                &&& v.len() >= 1
                &&& v[0].0 == self.point_at_spec(begin)
                &&& v[v.len() - 1].1 == self.point_at_spec(end)
                &&& forall|j: int| 0 <= j < v.len() - 1 ==> (#[trigger] v[j]).1 == v[j + 1].0
            }),
    {
        self.lemma_seg_idx_monotone(begin, end);
        self.lemma_seg_idx_in_range(begin);
        self.lemma_seg_idx_in_range(end);
        let i1 = self.seg_idx(begin);
        let i2 = self.seg_idx(end);
        let v = self.lines_between_spec(begin, end).unwrap();
        if i1 != i2 {
            assert(v.len() == i2 - i1 + 1);
            assert forall|j: int| 0 <= j < v.len() - 1 implies (#[trigger] v[j]).1 == v[j + 1].0 by {
                if j == 0 {
                    assert(v[0].1 == self.points@[i1 + 1]);
                    if i2 == i1 + 1 {
                        assert(v[1] == (self.points@[i2], self.point_at_spec(end)));
                    } else {
                        assert(v[1] == (self.points@[i1 + 1], self.points@[i1 + 2]));
                    }
                } else if j < v.len() - 2 {
                    assert(v[j] == (self.points@[i1 + j], self.points@[i1 + j + 1]));
                    assert(v[j + 1] == (self.points@[i1 + j + 1], self.points@[i1 + j + 2]));
                } else {
                    assert(j == v.len() - 2);
                    assert(v[j] == (self.points@[i1 + j], self.points@[i1 + j + 1]));
                    assert(v[j + 1] == (self.points@[i2], self.point_at_spec(end)));
                }
            }
        }
    }

    /// Total arc length of the path.
    pub fn length(&self) -> (r: i64)
        ensures
            r == self.length,
    {
        self.length
    }

    /// The points the path was built from.
    pub fn points(&self) -> (r: &Vec<Vec3>)
        ensures
            r@ == self.points@,
    {
        &self.points
    }
}

} // verus!
