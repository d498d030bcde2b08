//! Scene clustering for the overlay renderer.
//!
//! One buffer for the whole scene would be as large as the screen as soon as
//! things stand in opposite corners. The scene is therefore split into
//! clusters: sprites whose boxes touch (with a margin) share a buffer, and at
//! most `max` buffers are kept, the cheapest pairs being merged first.
//!
//! A box is `(x, y, w, h)` in logical screen pixels. In contracts a box is
//! read by its corners `(x0, y0, x1, y1)`.

use vstd::prelude::*;

verus! {

pub open spec fn imin(a: int, b: int) -> int {
    if a <= b { a } else { b }
}

pub open spec fn imax(a: int, b: int) -> int {
    if a >= b { a } else { b }
}

/// Corners `(x0, y0, x1, y1)` of a box `(x, y, w, h)`.
pub open spec fn corners(b: (i32, i32, u32, u32)) -> (int, int, int, int) {
    (b.0 as int, b.1 as int, b.0 + b.2, b.1 + b.3)
}

/// Both corners are screen coordinates (`i32`).
pub open spec fn corners_ok(c: (int, int, int, int)) -> bool {
    &&& i32::MIN <= c.0 <= c.2 <= i32::MAX
    &&& i32::MIN <= c.1 <= c.3 <= i32::MAX
}

/// A box whose far corner is still a screen coordinate.
pub open spec fn box_ok(b: (i32, i32, u32, u32)) -> bool {
    corners_ok(corners(b))
}

/// Smallest box that holds both.
pub open spec fn hull2(a: (int, int, int, int), b: (int, int, int, int)) -> (int, int, int, int) {
    (imin(a.0, b.0), imin(a.1, b.1), imax(a.2, b.2), imax(a.3, b.3))
}

/// `inner` lies within `outer`.
pub open spec fn contains(outer: (int, int, int, int), inner: (int, int, int, int)) -> bool {
    outer.0 <= inner.0 && outer.1 <= inner.1 && inner.2 <= outer.2 && inner.3 <= outer.3
}

/// The boxes overlap once `a` is grown by `gap` on every side.
pub open spec fn touches_c(a: (int, int, int, int), b: (int, int, int, int), gap: int) -> bool {
    &&& a.0 - gap < b.2
    &&& b.0 < a.2 + gap
    &&& a.1 - gap < b.3
    &&& b.1 < a.3 + gap
}

pub open spec fn area_c(a: (int, int, int, int)) -> int {
    (a.2 - a.0) * (a.3 - a.1)
}

/// Area that merging two boxes adds to the screen: hull minus both.
pub open spec fn cost_c(a: (int, int, int, int), b: (int, int, int, int)) -> int {
    area_c(hull2(a, b)) - area_c(a) - area_c(b)
}

pub proof fn lemma_hull2_ok(a: (int, int, int, int), b: (int, int, int, int))
    requires
        corners_ok(a),
        corners_ok(b),
    ensures
        corners_ok(hull2(a, b)),
        contains(hull2(a, b), a),
        contains(hull2(a, b), b),
{
}

pub proof fn lemma_area_bounds(a: (int, int, int, int))
    requires
        corners_ok(a),
    ensures
        0 <= area_c(a) <= 0xffff_ffff * 0xffff_ffff,
{
    let w = a.2 - a.0;
    let h = a.3 - a.1;
    assert(0 <= w <= 0xffff_ffff);
    assert(0 <= h <= 0xffff_ffff);
    assert(0 <= w * h <= 0xffff_ffff * 0xffff_ffff) by (nonlinear_arith)
        requires
            0 <= w <= 0xffff_ffff,
            0 <= h <= 0xffff_ffff,
    ;
}

/// Union of two boxes: the smallest box that holds both.
pub fn union(a: (i32, i32, u32, u32), b: (i32, i32, u32, u32)) -> (r: (i32, i32, u32, u32))
    requires
        box_ok(a),
        box_ok(b),
    ensures
        corners(r) == hull2(corners(a), corners(b)),
        box_ok(r),
{
    let x0 = if a.0 <= b.0 { a.0 } else { b.0 };
    let y0 = if a.1 <= b.1 { a.1 } else { b.1 };
    let ax1 = a.0 as i64 + a.2 as i64;
    let bx1 = b.0 as i64 + b.2 as i64;
    let ay1 = a.1 as i64 + a.3 as i64;
    let by1 = b.1 as i64 + b.3 as i64;
    let x1 = if ax1 >= bx1 { ax1 } else { bx1 };
    let y1 = if ay1 >= by1 { ay1 } else { by1 };
    proof {
        lemma_hull2_ok(corners(a), corners(b));
    }
    (x0, y0, (x1 - x0 as i64) as u32, (y1 - y0 as i64) as u32)
}

/// Area of a box.
pub fn area(a: (i32, i32, u32, u32)) -> (r: i64)
    requires
        box_ok(a),
        area_c(corners(a)) <= i64::MAX,
    ensures
        r == area_c(corners(a)),
{
    proof {
        lemma_area_bounds(corners(a));
    }
    a.2 as i64 * a.3 as i64
}

/// Area of the union of two boxes.
pub fn union_area(a: (i32, i32, u32, u32), b: (i32, i32, u32, u32)) -> (r: i64)
    requires
        box_ok(a),
        box_ok(b),
        area_c(hull2(corners(a), corners(b))) <= i64::MAX,
    ensures
        r == area_c(hull2(corners(a), corners(b))),
{
    area(union(a, b))
}

/// The boxes overlap once `a` is grown by `gap` on every side.
pub fn touches(a: (i32, i32, u32, u32), b: (i32, i32, u32, u32), gap: i32) -> (r: bool)
    requires
        box_ok(a),
        box_ok(b),
    ensures
        r == touches_c(corners(a), corners(b), gap as int),
{
    let g = gap as i64;
    let ax1 = a.0 as i64 + a.2 as i64 + g;
    let ay1 = a.1 as i64 + a.3 as i64 + g;
    let bx1 = b.0 as i64 + b.2 as i64;
    let by1 = b.1 as i64 + b.3 as i64;
    (a.0 as i64) - g < bx1 && (b.0 as i64) < ax1 && (a.1 as i64) - g < by1 && (b.1 as i64) < ay1
}

/// Strictly increasing.
pub open spec fn sorted_strict(s: Seq<usize>) -> bool {
    forall|a: int, b: int| 0 <= a < b < s.len() ==> s[a] < s[b]
}

/// Merge two strictly increasing lists with no common element.
pub fn merge_sorted(x: Vec<usize>, y: Vec<usize>) -> (r: Vec<usize>)
    requires
        sorted_strict(x@),
        sorted_strict(y@),
        forall|a: int, b: int| 0 <= a < x.len() && 0 <= b < y.len() ==> x[a] != y[b],
    ensures
        sorted_strict(r@),
        forall|v: usize| r@.contains(v) <==> (x@.contains(v) || y@.contains(v)),
        r@.to_set() == x@.to_set().union(y@.to_set()),
{
    let mut r: Vec<usize> = Vec::new();
    let mut i: usize = 0;
    let mut j: usize = 0;
    while i < x.len() || j < y.len()
        invariant
            0 <= i <= x.len(),
            0 <= j <= y.len(),
            sorted_strict(x@),
            sorted_strict(y@),
            forall|a: int, b: int| 0 <= a < x.len() && 0 <= b < y.len() ==> x[a] != y[b],
            sorted_strict(r@),
            forall|v: usize|
                r@.contains(v) <==> ((exists|k: int| 0 <= k < i && x[k] == v) || (exists|k: int|
                    0 <= k < j && y[k] == v)),
            r.len() > 0 && i < x.len() ==> r[r.len() - 1] < x[i as int],
            r.len() > 0 && j < y.len() ==> r[r.len() - 1] < y[j as int],
        decreases x.len() - i + y.len() - j,
    {
        let ghost old_r = r@;
        if j >= y.len() || (i < x.len() && x[i] < y[j]) {
            let v = x[i];
            r.push(v);
            i = i + 1;
            assert forall|w: usize|
                r@.contains(w) <==> ((exists|k: int| 0 <= k < i && x[k] == w) || (exists|k: int|
                    0 <= k < j && y[k] == w)) by {
                if r@.contains(w) {
                    let t = choose|t: int| 0 <= t < r.len() && r@[t] == w;
                    if t < old_r.len() {
                        assert(old_r.contains(w));
                    }
                }
                if exists|k: int| 0 <= k < i && x[k] == w {
                    let k = choose|k: int| 0 <= k < i && x[k] == w;
                    if k < i - 1 {
                        assert(old_r.contains(w));
                        let t = choose|t: int| 0 <= t < old_r.len() && old_r[t] == w;
                        assert(r@[t] == w);
                    } else {
                        assert(r@[r.len() - 1] == w);
                    }
                }
                if exists|k: int| 0 <= k < j && y[k] == w {
                    assert(old_r.contains(w));
                    let t = choose|t: int| 0 <= t < old_r.len() && old_r[t] == w;
                    assert(r@[t] == w);
                }
            }
        } else {
            let v = y[j];
            if i < x.len() {
                assert(x[i as int] != y[j as int]);
            }
            r.push(v);
            j = j + 1;
            assert forall|w: usize|
                r@.contains(w) <==> ((exists|k: int| 0 <= k < i && x[k] == w) || (exists|k: int|
                    0 <= k < j && y[k] == w)) by {
                if r@.contains(w) {
                    let t = choose|t: int| 0 <= t < r.len() && r@[t] == w;
                    if t < old_r.len() {
                        assert(old_r.contains(w));
                    }
                }
                if exists|k: int| 0 <= k < j && y[k] == w {
                    let k = choose|k: int| 0 <= k < j && y[k] == w;
                    if k < j - 1 {
                        assert(old_r.contains(w));
                        let t = choose|t: int| 0 <= t < old_r.len() && old_r[t] == w;
                        assert(r@[t] == w);
                    } else {
                        assert(r@[r.len() - 1] == w);
                    }
                }
                if exists|k: int| 0 <= k < i && x[k] == w {
                    assert(old_r.contains(w));
                    let t = choose|t: int| 0 <= t < old_r.len() && old_r[t] == w;
                    assert(r@[t] == w);
                }
            }
        }
    }
    assert forall|v: usize| r@.contains(v) <==> (x@.contains(v) || y@.contains(v)) by {
        if x@.contains(v) {
            let k = choose|k: int| 0 <= k < x.len() && x[k] == v;
            assert(exists|k: int| 0 <= k < i && x[k] == v);
        }
        if y@.contains(v) {
            let k = choose|k: int| 0 <= k < y.len() && y[k] == v;
            assert(exists|k: int| 0 <= k < j && y[k] == v);
        }
    }
    assert(r@.to_set() =~= x@.to_set().union(y@.to_set()));
    r
}


/// A cluster as plain values: its bounds (corners) and its sprite indices.
pub struct ClusterV {
    pub bounds: (int, int, int, int),
    pub members: Set<usize>,
}

/// A group of sprites drawn into one buffer.
#[derive(Debug, PartialEq)]
pub struct Cluster {
    /// Bounds in logical screen coordinates.
    pub bounds: (i32, i32, u32, u32),
    /// Indices of the scene's sprites in the cluster, ascending (the order
    /// in which they are drawn).
    pub sprites: Vec<usize>,
}

impl Cluster {
    pub open spec fn view(&self) -> ClusterV {
        ClusterV { bounds: corners(self.bounds), members: self.sprites@.to_set() }
    }
}

pub open spec fn views(out: Seq<Cluster>) -> Seq<ClusterV> {
    out.map_values(|c: Cluster| c.view())
}

/// The boxes of the scene's sprites as corners; `None` for an invisible one.
pub open spec fn boxes_view(boxes: Seq<Option<(i32, i32, u32, u32)>>) -> Seq<Option<(int, int, int, int)>> {
    boxes.map_values(
        |o: Option<(i32, i32, u32, u32)>|
            match o {
                Some(b) => Some(corners(b)),
                None => None,
            },
    )
}

pub open spec fn join(c: ClusterV, b: (int, int, int, int), i: usize) -> ClusterV {
    ClusterV { bounds: hull2(c.bounds, b), members: c.members.insert(i) }
}

pub open spec fn absorb(c: ClusterV, d: ClusterV) -> ClusterV {
    ClusterV { bounds: hull2(c.bounds, d.bounds), members: c.members.union(d.members) }
}

pub open spec fn single(b: (int, int, int, int), i: usize) -> ClusterV {
    ClusterV { bounds: b, members: Set::empty().insert(i) }
}

/// Placing sprite `i` with box `b`, from cluster `j` on: the first cluster it
/// touches takes it (`hit`), every later one it touches is merged into that
/// one; if none touches, it starts a cluster of its own at the end.
pub open spec fn scan(
    out: Seq<ClusterV>,
    j: int,
    hit: Option<int>,
    i: usize,
    b: (int, int, int, int),
    gap: int,
) -> Seq<ClusterV>
    decreases out.len() - j,
{
    if j < 0 || j >= out.len() {
        if hit is None {
            out.push(single(b, i))
        } else {
            out
        }
    } else if touches_c(out[j].bounds, b, gap) {
        match hit {
            None => scan(out.update(j, join(out[j], b, i)), j + 1, Some(j), i, b, gap),
            Some(h) => if 0 <= h < j {
                scan(out.remove(j).update(h, absorb(out[h], out[j])), j, hit, i, b, gap)
            } else {
                out
            },
        }
    } else {
        scan(out, j + 1, hit, i, b, gap)
    }
}

/// Clusters after placing the first `n` sprites in order.
pub open spec fn gather(boxes: Seq<Option<(int, int, int, int)>>, n: int, gap: int) -> Seq<ClusterV>
    decreases n,
{
    if n <= 0 {
        Seq::empty()
    } else {
        let prev = gather(boxes, n - 1, gap);
        match boxes[n - 1] {
            None => prev,
            Some(b) => scan(prev, 0, None, (n - 1) as usize, b, gap),
        }
    }
}

/// Cheapest pair from `(a, b)` on, pairs taken in order `(0,1), (0,2), ...,
/// (1,2), ...`; a later pair replaces the best so far only when strictly
/// cheaper.
pub open spec fn best_scan(out: Seq<ClusterV>, a: int, b: int, best: (int, int, int)) -> (int, int, int)
    decreases out.len() - a, out.len() - b,
{
    if a < 0 || a >= out.len() {
        best
    } else if b < 0 || b >= out.len() {
        best_scan(out, a + 1, a + 2, best)
    } else {
        let c = cost_c(out[a].bounds, out[b].bounds);
        best_scan(out, a, b + 1, if c < best.2 { (a, b, c) } else { best })
    }
}

pub open spec fn first_best() -> (int, int, int) {
    (0, 1, i64::MAX as int)
}

/// Merge cluster `b` into cluster `a` (a < b).
pub open spec fn merge_pair(out: Seq<ClusterV>, a: int, b: int) -> Seq<ClusterV> {
    out.remove(b).update(a, absorb(out[a], out[b]))
}

pub open spec fn cap_limit(max: int) -> int {
    if max > 1 { max } else { 1 }
}

/// While there are more clusters than allowed, merge the cheapest pair.
pub open spec fn cap(out: Seq<ClusterV>, max: int) -> Seq<ClusterV>
    decreases out.len(),
{
    if out.len() <= cap_limit(max) || out.len() < 2 {
        out
    } else {
        let best = best_scan(out, 0, 1, first_best());
        if 0 <= best.0 < best.1 < out.len() {
            cap(merge_pair(out, best.0, best.1), max)
        } else {
            out
        }
    }
}

/// The clustering of a scene.
pub open spec fn cluster_spec(boxes: Seq<Option<(int, int, int, int)>>, gap: int, max: int) -> Seq<ClusterV> {
    cap(gather(boxes, boxes.len() as int, gap), max)
}

// ---------------------------------------------------------------------------
// Validity of a clustering
// ---------------------------------------------------------------------------

pub open spec fn vis(boxes: Seq<Option<(int, int, int, int)>>, m: usize) -> bool {
    (m as int) < boxes.len() && boxes[m as int] is Some
}

pub open spec fn bx(boxes: Seq<Option<(int, int, int, int)>>, m: usize) -> (int, int, int, int) {
    boxes[m as int].unwrap()
}

/// The bounds are exactly the hull of the members' boxes: every member box
/// lies within them and each side is reached by some member.
#[verifier::opaque]
pub open spec fn hull_of(c: ClusterV, boxes: Seq<Option<(int, int, int, int)>>) -> bool {
    &&& forall|m: usize| #[trigger] c.members.contains(m) ==> contains(c.bounds, bx(boxes, m))
    &&& exists|m: usize| #[trigger] c.members.contains(m) && bx(boxes, m).0 == c.bounds.0
    &&& exists|m: usize| #[trigger] c.members.contains(m) && bx(boxes, m).1 == c.bounds.1
    &&& exists|m: usize| #[trigger] c.members.contains(m) && bx(boxes, m).2 == c.bounds.2
    &&& exists|m: usize| #[trigger] c.members.contains(m) && bx(boxes, m).3 == c.bounds.3
}

#[verifier::opaque]
pub open spec fn v_ok(out: Seq<ClusterV>) -> bool {
    forall|k: int| 0 <= k < out.len() ==> corners_ok(#[trigger] out[k].bounds)
}

#[verifier::opaque]
pub open spec fn v_hull(out: Seq<ClusterV>, boxes: Seq<Option<(int, int, int, int)>>) -> bool {
    forall|k: int| 0 <= k < out.len() ==> hull_of(#[trigger] out[k], boxes)
}

#[verifier::opaque]
pub open spec fn v_mem(out: Seq<ClusterV>, boxes: Seq<Option<(int, int, int, int)>>, upto: int) -> bool {
    forall|k: int, m: usize|
        0 <= k < out.len() && #[trigger] out[k].members.contains(m) ==> vis(boxes, m) && (m as int)
            < upto
}

#[verifier::opaque]
pub open spec fn v_disj(out: Seq<ClusterV>) -> bool {
    forall|k1: int, k2: int, m: usize|
        0 <= k1 < out.len() && 0 <= k2 < out.len() && k1 != k2 && #[trigger] out[k1].members.contains(m)
            ==> !#[trigger] out[k2].members.contains(m)
}

#[verifier::opaque]
pub open spec fn v_cover(out: Seq<ClusterV>, boxes: Seq<Option<(int, int, int, int)>>, upto: int) -> bool {
    forall|m: usize|
        vis(boxes, m) && (m as int) < upto ==> exists|k: int|
            0 <= k < out.len() && #[trigger] out[k].members.contains(m)
}

/// Every visible sprite below `upto` is in exactly one cluster, clusters hold
/// nothing else, and each cluster's bounds are the hull of its sprites.
pub open spec fn valid(out: Seq<ClusterV>, boxes: Seq<Option<(int, int, int, int)>>, upto: int) -> bool {
    &&& v_ok(out)
    &&& v_hull(out, boxes)
    &&& v_mem(out, boxes, upto)
    &&& v_disj(out)
    &&& v_cover(out, boxes, upto)
}

pub open spec fn boxes_ok(boxes: Seq<Option<(int, int, int, int)>>) -> bool {
    &&& boxes.len() <= usize::MAX
    &&& forall|i: int| 0 <= i < boxes.len() && boxes[i] is Some ==> corners_ok(#[trigger] boxes[i].unwrap())
}

pub proof fn lemma_hull_join(c: ClusterV, b: (int, int, int, int), i: usize, boxes: Seq<Option<(int, int, int, int)>>)
    requires
        hull_of(c, boxes),
        vis(boxes, i),
        bx(boxes, i) == b,
    ensures
        hull_of(join(c, b, i), boxes),
{
    reveal(hull_of);
    let n = join(c, b, i);
    assert forall|m: usize| #[trigger] n.members.contains(m) implies contains(n.bounds, bx(boxes, m)) by {
        if m != i {
            assert(c.members.contains(m));
        }
    }
    let m0 = choose|m: usize| #[trigger] c.members.contains(m) && bx(boxes, m).0 == c.bounds.0;
    let m1 = choose|m: usize| #[trigger] c.members.contains(m) && bx(boxes, m).1 == c.bounds.1;
    let m2 = choose|m: usize| #[trigger] c.members.contains(m) && bx(boxes, m).2 == c.bounds.2;
    let m3 = choose|m: usize| #[trigger] c.members.contains(m) && bx(boxes, m).3 == c.bounds.3;
    assert(n.members.contains(m0) && n.members.contains(m1) && n.members.contains(m2)
        && n.members.contains(m3) && n.members.contains(i));
    if b.0 < c.bounds.0 {
        assert(bx(boxes, i).0 == n.bounds.0);
    } else {
        assert(bx(boxes, m0).0 == n.bounds.0);
    }
    if b.1 < c.bounds.1 {
        assert(bx(boxes, i).1 == n.bounds.1);
    } else {
        assert(bx(boxes, m1).1 == n.bounds.1);
    }
    if b.2 > c.bounds.2 {
        assert(bx(boxes, i).2 == n.bounds.2);
    } else {
        assert(bx(boxes, m2).2 == n.bounds.2);
    }
    if b.3 > c.bounds.3 {
        assert(bx(boxes, i).3 == n.bounds.3);
    } else {
        assert(bx(boxes, m3).3 == n.bounds.3);
    }
}

pub proof fn lemma_hull_absorb(c: ClusterV, d: ClusterV, boxes: Seq<Option<(int, int, int, int)>>)
    requires
        hull_of(c, boxes),
        hull_of(d, boxes),
    ensures
        hull_of(absorb(c, d), boxes),
{
    reveal(hull_of);
    let n = absorb(c, d);
    assert forall|m: usize| #[trigger] n.members.contains(m) implies contains(n.bounds, bx(boxes, m)) by {
        if c.members.contains(m) {
        } else {
            assert(d.members.contains(m));
        }
    }
    let c0 = choose|m: usize| #[trigger] c.members.contains(m) && bx(boxes, m).0 == c.bounds.0;
    let c1 = choose|m: usize| #[trigger] c.members.contains(m) && bx(boxes, m).1 == c.bounds.1;
    let c2 = choose|m: usize| #[trigger] c.members.contains(m) && bx(boxes, m).2 == c.bounds.2;
    let c3 = choose|m: usize| #[trigger] c.members.contains(m) && bx(boxes, m).3 == c.bounds.3;
    let d0 = choose|m: usize| #[trigger] d.members.contains(m) && bx(boxes, m).0 == d.bounds.0;
    let d1 = choose|m: usize| #[trigger] d.members.contains(m) && bx(boxes, m).1 == d.bounds.1;
    let d2 = choose|m: usize| #[trigger] d.members.contains(m) && bx(boxes, m).2 == d.bounds.2;
    let d3 = choose|m: usize| #[trigger] d.members.contains(m) && bx(boxes, m).3 == d.bounds.3;
    assert(n.members.contains(c0) && n.members.contains(c1) && n.members.contains(c2)
        && n.members.contains(c3));
    assert(n.members.contains(d0) && n.members.contains(d1) && n.members.contains(d2)
        && n.members.contains(d3));
    if d.bounds.0 < c.bounds.0 {
        assert(bx(boxes, d0).0 == n.bounds.0);
    } else {
        assert(bx(boxes, c0).0 == n.bounds.0);
    }
    if d.bounds.1 < c.bounds.1 {
        assert(bx(boxes, d1).1 == n.bounds.1);
    } else {
        assert(bx(boxes, c1).1 == n.bounds.1);
    }
    if d.bounds.2 > c.bounds.2 {
        assert(bx(boxes, d2).2 == n.bounds.2);
    } else {
        assert(bx(boxes, c2).2 == n.bounds.2);
    }
    if d.bounds.3 > c.bounds.3 {
        assert(bx(boxes, d3).3 == n.bounds.3);
    } else {
        assert(bx(boxes, c3).3 == n.bounds.3);
    }
}

/// A one-sprite cluster is the hull of its sprite.
pub proof fn lemma_hull_single(b: (int, int, int, int), i: usize, boxes: Seq<Option<(int, int, int, int)>>)
    requires
        vis(boxes, i),
        bx(boxes, i) == b,
    ensures
        hull_of(single(b, i), boxes),
{
    reveal(hull_of);
    let s = single(b, i);
    assert(s.members.contains(i));
    assert forall|m: usize| #[trigger] s.members.contains(m) implies contains(s.bounds, bx(boxes, m)) by {
        assert(m == i);
    }
}

/// Sprites `m1` and `m2` are in one cluster.
pub open spec fn together(out: Seq<ClusterV>, m1: usize, m2: usize) -> bool {
    exists|k: int| #![trigger out[k]] 0 <= k < out.len() && out[k].members.contains(m1) && out[k].members.contains(m2)
}

/// Placing a sprite never separates two sprites that share a cluster.
proof fn lemma_scan_keeps(
    out: Seq<ClusterV>,
    j: int,
    hit: Option<int>,
    i: usize,
    b: (int, int, int, int),
    gap: int,
    k: int,
    m1: usize,
    m2: usize,
)
    requires
        0 <= j,
        0 <= k < out.len(),
        out[k].members.contains(m1),
        out[k].members.contains(m2),
    ensures
        together(scan(out, j, hit, i, b, gap), m1, m2),
    decreases out.len() - j,
{
    if j >= out.len() {
        if hit is None {
            let r = out.push(single(b, i));
            assert(r[k] == out[k]);
        } else {
            assert(out[k] == out[k]);
        }
    } else if touches_c(out[j].bounds, b, gap) {
        match hit {
            None => {
                let o2 = out.update(j, join(out[j], b, i));
                assert(o2[k].members.contains(m1) && o2[k].members.contains(m2));
                lemma_scan_keeps(o2, j + 1, Some(j), i, b, gap, k, m1, m2);
            },
            Some(h) => {
                if 0 <= h < j {
                    let o2 = out.remove(j).update(h, absorb(out[h], out[j]));
                    let k2 = if k == j || k == h { h } else if k > j { k - 1 } else { k };
                    assert(o2[k2].members.contains(m1) && o2[k2].members.contains(m2));
                    lemma_scan_keeps(o2, j, hit, i, b, gap, k2, m1, m2);
                } else {
                    assert(out[k] == out[k]);
                }
            },
        }
    } else {
        lemma_scan_keeps(out, j + 1, hit, i, b, gap, k, m1, m2);
    }
}

/// Placing sprite `i` puts it with every sprite of the cluster it already
/// joined (`hit`) and of every later cluster that its box touches.
proof fn lemma_scan_joins(
    out: Seq<ClusterV>,
    j: int,
    hit: Option<int>,
    i: usize,
    b: (int, int, int, int),
    gap: int,
    k: int,
    m: usize,
)
    requires
        0 <= j,
        hit matches Some(h) ==> 0 <= h < j && h < out.len() && out[h].members.contains(i),
        0 <= k < out.len(),
        out[k].members.contains(m),
        (hit == Some(k)) || (j <= k && touches_c(out[k].bounds, b, gap)),
    ensures
        together(scan(out, j, hit, i, b, gap), i, m),
    decreases out.len() - j,
{
    if j >= out.len() {
        assert(out[k] == out[k]);
    } else if touches_c(out[j].bounds, b, gap) {
        match hit {
            None => {
                let o2 = out.update(j, join(out[j], b, i));
                assert(o2[j].members.contains(i));
                assert(o2[k].members.contains(m));
                lemma_scan_joins(o2, j + 1, Some(j), i, b, gap, k, m);
            },
            Some(h) => {
                let o2 = out.remove(j).update(h, absorb(out[h], out[j]));
                assert(o2[h].members.contains(i));
                let k2 = if k == j || k == h { h } else { k - 1 };
                assert(o2[k2].members.contains(m));
                if k2 != h {
                    assert(o2[k2] == out[k]);
                }
                lemma_scan_joins(o2, j, hit, i, b, gap, k2, m);
            },
        }
    } else {
        lemma_scan_joins(out, j + 1, hit, i, b, gap, k, m);
    }
}

/// Merging the cheapest pairs never separates two sprites of one cluster.
proof fn lemma_cap_keeps(out: Seq<ClusterV>, max: int, k: int, m1: usize, m2: usize)
    requires
        0 <= k < out.len(),
        out[k].members.contains(m1),
        out[k].members.contains(m2),
    ensures
        together(cap(out, max), m1, m2),
    decreases out.len(),
{
    if out.len() <= cap_limit(max) || out.len() < 2 {
        assert(out[k] == out[k]);
    } else {
        let best = best_scan(out, 0, 1, first_best());
        if 0 <= best.0 < best.1 < out.len() {
            let (a, b) = (best.0, best.1);
            let o2 = merge_pair(out, a, b);
            let k2 = if k == a || k == b { a } else if k > b { k - 1 } else { k };
            assert(o2[k2].members.contains(m1) && o2[k2].members.contains(m2));
            lemma_cap_keeps(o2, max, k2, m1, m2);
        } else {
            assert(out[k] == out[k]);
        }
    }
}

proof fn lemma_touches_symmetric(a: (int, int, int, int), b: (int, int, int, int), gap: int)
    requires
        touches_c(a, b, gap),
    ensures
        touches_c(b, a, gap),
{
}

proof fn lemma_touches_grows(a: (int, int, int, int), b: (int, int, int, int), outer: (int, int, int, int), gap: int)
    requires
        touches_c(a, b, gap),
        contains(outer, a),
    ensures
        touches_c(outer, b, gap),
{
}

proof fn lemma_gather_together(boxes: Seq<Option<(int, int, int, int)>>, n: int, gap: int, i: usize, k: usize)
    requires
        boxes_ok(boxes),
        0 <= n <= boxes.len(),
        vis(boxes, i),
        vis(boxes, k),
        (i as int) < n,
        (k as int) < n,
        touches_c(bx(boxes, i), bx(boxes, k), gap),
    ensures
        together(gather(boxes, n, gap), i, k),
    decreases n,
{
    let p = n - 1;
    lemma_gather_valid(boxes, n, gap);
    if i == k {
        reveal(v_cover);
        let g = gather(boxes, n, gap);
        let c = choose|c: int| 0 <= c < g.len() && #[trigger] g[c].members.contains(i);
        assert(g[c] == g[c]);
        return;
    }
    let prev = gather(boxes, p, gap);
    if (i as int) < p && (k as int) < p {
        lemma_gather_together(boxes, p, gap, i, k);
        let c = choose|c: int| #![trigger prev[c]] 0 <= c < prev.len() && prev[c].members.contains(i) && prev[c].members.contains(k);
        match boxes[p] {
            None => {
                assert(prev[c] == prev[c]);
            },
            Some(b) => {
                lemma_scan_keeps(prev, 0, None, p as usize, b, gap, c, i, k);
            },
        }
    } else {
        let (nw, od) = if i as int == p { (i, k) } else { (k, i) };
        assert(nw as int == p && (od as int) < p);
        lemma_gather_valid(boxes, p, gap);
        reveal(v_cover);
        reveal(v_hull);
        let c = choose|c: int| 0 <= c < prev.len() && #[trigger] prev[c].members.contains(od);
        assert(hull_of(prev[c], boxes));
        reveal(hull_of);
        assert(contains(prev[c].bounds, bx(boxes, od)));
        let b = bx(boxes, nw);
        assert(boxes[p] == Some(b));
        if nw == i {
            lemma_touches_symmetric(bx(boxes, i), bx(boxes, k), gap);
            lemma_touches_grows(bx(boxes, k), bx(boxes, i), prev[c].bounds, gap);
        } else {
            lemma_touches_grows(bx(boxes, i), bx(boxes, k), prev[c].bounds, gap);
        }
        assert(touches_c(prev[c].bounds, b, gap));
        lemma_scan_joins(prev, 0, None, p as usize, b, gap, c, od);
        let g = gather(boxes, n, gap);
        assert(g == scan(prev, 0, None, p as usize, b, gap));
        let w = choose|w: int| #![trigger g[w]] 0 <= w < g.len() && g[w].members.contains(nw) && g[w].members.contains(od);
        assert(g[w].members.contains(i) && g[w].members.contains(k));
    }
}

/// Sprites whose boxes meet (with margin `gap`) are drawn into one buffer.
pub proof fn law_touching_sprites_share_a_cluster(
    boxes: Seq<Option<(int, int, int, int)>>,
    gap: int,
    max: int,
    i: usize,
    k: usize,
)
    requires
        boxes_ok(boxes),
        vis(boxes, i),
        vis(boxes, k),
        touches_c(bx(boxes, i), bx(boxes, k), gap),
    ensures
        together(cluster_spec(boxes, gap, max), i, k),
{
    let n = boxes.len() as int;
    lemma_gather_together(boxes, n, gap, i, k);
    let g = gather(boxes, n, gap);
    let c = choose|c: int| #![trigger g[c]] 0 <= c < g.len() && g[c].members.contains(i) && g[c].members.contains(k);
    lemma_cap_keeps(g, max, c, i, k);
}


/// Sprite `i` joins cluster `j`.
pub proof fn lemma_join_valid(
    out: Seq<ClusterV>,
    j: int,
    i: usize,
    b: (int, int, int, int),
    boxes: Seq<Option<(int, int, int, int)>>,
)
    requires
        valid(out, boxes, i as int),
        0 <= j < out.len(),
        vis(boxes, i),
        bx(boxes, i) == b,
        corners_ok(b),
    ensures
        valid(out.update(j, join(out[j], b, i)), boxes, i + 1),
        out.update(j, join(out[j], b, i))[j].members.contains(i),
{
    let n = out.update(j, join(out[j], b, i));
    assert(n[j].members.contains(i));
    reveal(v_ok);
    reveal(v_hull);
    reveal(v_mem);
    reveal(v_disj);
    reveal(v_cover);
    assert(hull_of(out[j], boxes));
    lemma_hull_join(out[j], b, i, boxes);
    lemma_hull2_ok(out[j].bounds, b);
    assert forall|k: int| 0 <= k < n.len() implies corners_ok(#[trigger] n[k].bounds) by {
        if k != j {
            assert(corners_ok(out[k].bounds));
        }
    }
    assert forall|k: int| 0 <= k < n.len() implies hull_of(#[trigger] n[k], boxes) by {
        if k != j {
            assert(hull_of(out[k], boxes));
        }
    }
    assert forall|k: int, m: usize|
        0 <= k < n.len() && #[trigger] n[k].members.contains(m) implies vis(boxes, m) && (m as int)
        < i + 1 by {
        if k != j || m != i {
            assert(out[k].members.contains(m));
        }
    }
    assert forall|k1: int, k2: int, m: usize|
        0 <= k1 < n.len() && 0 <= k2 < n.len() && k1 != k2 && #[trigger] n[k1].members.contains(
            m,
        ) implies !#[trigger] n[k2].members.contains(m) by {
        if m == i {
            if k1 != j {
                assert(out[k1].members.contains(m));
            }
            if k2 != j && n[k2].members.contains(m) {
                assert(out[k2].members.contains(m));
            }
        } else {
            assert(out[k1].members.contains(m));
            if n[k2].members.contains(m) {
                assert(out[k2].members.contains(m));
            }
        }
    }
    assert forall|m: usize| vis(boxes, m) && (m as int) < i + 1 implies exists|k: int|
        0 <= k < n.len() && #[trigger] n[k].members.contains(m) by {
        if m == i {
            assert(n[j].members.contains(m));
        } else {
            let k = choose|k: int| 0 <= k < out.len() && #[trigger] out[k].members.contains(m);
            assert(n[k].members.contains(m));
        }
    }
}

pub proof fn lemma_merge_index(out: Seq<ClusterV>, h: int, j: int)
    requires
        0 <= h < j < out.len(),
    ensures
        ({
            let n = out.remove(j).update(h, absorb(out[h], out[j]));
            &&& n.len() == out.len() - 1
            &&& n[h] == absorb(out[h], out[j])
            &&& forall|k: int| 0 <= k < j && k != h ==> #[trigger] n[k] == out[k]
            &&& forall|k: int| j <= k < n.len() ==> #[trigger] n[k] == out[k + 1]
        }),
{
}

/// Source of a member of the merged sequence: cluster `k` of the merge holds
/// `m` only if the old cluster at `src(k)` does, or, for `k == h`, cluster `j`.
pub open spec fn merge_src(h: int, j: int, k: int) -> int {
    if k == h { h } else if k < j { k } else { k + 1 }
}

pub proof fn lemma_merge_member(out: Seq<ClusterV>, h: int, j: int, k: int, m: usize)
    requires
        0 <= h < j < out.len(),
        0 <= k < out.len() - 1,
        out.remove(j).update(h, absorb(out[h], out[j]))[k].members.contains(m),
    ensures
        out[merge_src(h, j, k)].members.contains(m) || (k == h && out[j].members.contains(m)),
{
    lemma_merge_index(out, h, j);
}

/// Cluster `j` is merged into cluster `h` (h < j).
pub proof fn lemma_merge_valid(
    out: Seq<ClusterV>,
    h: int,
    j: int,
    boxes: Seq<Option<(int, int, int, int)>>,
    upto: int,
)
    requires
        valid(out, boxes, upto),
        0 <= h < j < out.len(),
    ensures
        valid(out.remove(j).update(h, absorb(out[h], out[j])), boxes, upto),
        forall|m: usize| out[h].members.contains(m) ==> #[trigger] out.remove(j).update(
            h,
            absorb(out[h], out[j]),
        )[h].members.contains(m),
        out.remove(j).update(h, absorb(out[h], out[j])).len() == out.len() - 1,
{
    let n = out.remove(j).update(h, absorb(out[h], out[j]));
    lemma_merge_index(out, h, j);
    lemma_merge_ok(out, h, j);
    lemma_merge_hull(out, h, j, boxes);
    lemma_merge_mem(out, h, j, boxes, upto);
    lemma_merge_disj(out, h, j);
    lemma_merge_cover(out, h, j, boxes, upto);
}

proof fn lemma_merge_ok(out: Seq<ClusterV>, h: int, j: int)
    requires
        v_ok(out),
        0 <= h < j < out.len(),
    ensures
        v_ok(out.remove(j).update(h, absorb(out[h], out[j]))),
{
    reveal(v_ok);
    let n = out.remove(j).update(h, absorb(out[h], out[j]));
    lemma_merge_index(out, h, j);
    assert(corners_ok(out[h].bounds));
    assert(corners_ok(out[j].bounds));
    lemma_hull2_ok(out[h].bounds, out[j].bounds);
    assert forall|k: int| 0 <= k < n.len() implies corners_ok(#[trigger] n[k].bounds) by {
        if k != h {
            assert(n[k] == out[merge_src(h, j, k)]);
            assert(corners_ok(out[merge_src(h, j, k)].bounds));
        }
    }
}

proof fn lemma_merge_hull(out: Seq<ClusterV>, h: int, j: int, boxes: Seq<Option<(int, int, int, int)>>)
    requires
        v_hull(out, boxes),
        0 <= h < j < out.len(),
    ensures
        v_hull(out.remove(j).update(h, absorb(out[h], out[j])), boxes),
{
    reveal(v_hull);
    let n = out.remove(j).update(h, absorb(out[h], out[j]));
    lemma_merge_index(out, h, j);
    assert(hull_of(out[h], boxes));
    assert(hull_of(out[j], boxes));
    lemma_hull_absorb(out[h], out[j], boxes);
    assert forall|k: int| 0 <= k < n.len() implies hull_of(#[trigger] n[k], boxes) by {
        if k != h {
            assert(n[k] == out[merge_src(h, j, k)]);
            assert(hull_of(out[merge_src(h, j, k)], boxes));
        }
    }
}

proof fn lemma_merge_mem(
    out: Seq<ClusterV>,
    h: int,
    j: int,
    boxes: Seq<Option<(int, int, int, int)>>,
    upto: int,
)
    requires
        v_mem(out, boxes, upto),
        0 <= h < j < out.len(),
    ensures
        v_mem(out.remove(j).update(h, absorb(out[h], out[j])), boxes, upto),
{
    reveal(v_mem);
    let n = out.remove(j).update(h, absorb(out[h], out[j]));
    lemma_merge_index(out, h, j);
    assert forall|k: int, m: usize|
        0 <= k < n.len() && #[trigger] n[k].members.contains(m) implies vis(boxes, m) && (m as int)
        < upto by {
        lemma_merge_member(out, h, j, k, m);
        if out[merge_src(h, j, k)].members.contains(m) {
        } else {
            assert(out[j].members.contains(m));
        }
    }
}

proof fn lemma_merge_disj(out: Seq<ClusterV>, h: int, j: int)
    requires
        v_disj(out),
        0 <= h < j < out.len(),
    ensures
        v_disj(out.remove(j).update(h, absorb(out[h], out[j]))),
{
    reveal(v_disj);
    let n = out.remove(j).update(h, absorb(out[h], out[j]));
    lemma_merge_index(out, h, j);
    assert forall|k1: int, k2: int, m: usize|
        0 <= k1 < n.len() && 0 <= k2 < n.len() && k1 != k2 && #[trigger] n[k1].members.contains(
            m,
        ) implies !#[trigger] n[k2].members.contains(m) by {
        lemma_merge_member(out, h, j, k1, m);
        let o1 = if out[merge_src(h, j, k1)].members.contains(m) { merge_src(h, j, k1) } else { j };
        assert(out[o1].members.contains(m));
        if n[k2].members.contains(m) {
            lemma_merge_member(out, h, j, k2, m);
            let o2 = if out[merge_src(h, j, k2)].members.contains(m) { merge_src(h, j, k2) } else { j };
            assert(out[o2].members.contains(m));
            assert(o1 != o2);
        }
    }
}

proof fn lemma_merge_cover(
    out: Seq<ClusterV>,
    h: int,
    j: int,
    boxes: Seq<Option<(int, int, int, int)>>,
    upto: int,
)
    requires
        v_cover(out, boxes, upto),
        0 <= h < j < out.len(),
    ensures
        v_cover(out.remove(j).update(h, absorb(out[h], out[j])), boxes, upto),
{
    reveal(v_cover);
    let n = out.remove(j).update(h, absorb(out[h], out[j]));
    lemma_merge_index(out, h, j);
    assert forall|m: usize| vis(boxes, m) && (m as int) < upto implies exists|k: int|
        0 <= k < n.len() && #[trigger] n[k].members.contains(m) by {
        let k = choose|k: int| 0 <= k < out.len() && #[trigger] out[k].members.contains(m);
        if k == h || k == j {
            assert(n[h].members.contains(m));
        } else if k < j {
            assert(n[k] == out[k]);
            assert(n[k].members.contains(m));
        } else {
            assert(n[k - 1] == out[k]);
            assert(n[k - 1].members.contains(m));
        }
    }
}

/// Sprite `i` starts a cluster of its own.
pub proof fn lemma_push_valid(
    out: Seq<ClusterV>,
    i: usize,
    b: (int, int, int, int),
    boxes: Seq<Option<(int, int, int, int)>>,
)
    requires
        valid(out, boxes, i as int),
        vis(boxes, i),
        bx(boxes, i) == b,
        corners_ok(b),
    ensures
        valid(out.push(single(b, i)), boxes, i + 1),
{
    let n = out.push(single(b, i));
    let s = single(b, i);
    assert(s.members.contains(i));
    lemma_hull_single(b, i, boxes);
    reveal(v_ok);
    reveal(v_hull);
    reveal(v_mem);
    reveal(v_disj);
    reveal(v_cover);
    assert forall|k: int| 0 <= k < n.len() implies corners_ok(#[trigger] n[k].bounds) by {
        if k < out.len() {
            assert(n[k] == out[k]);
            assert(corners_ok(out[k].bounds));
        }
    }
    assert forall|k: int| 0 <= k < n.len() implies hull_of(#[trigger] n[k], boxes) by {
        if k < out.len() {
            assert(n[k] == out[k]);
            assert(hull_of(out[k], boxes));
        }
    }
    assert forall|k: int, m: usize|
        0 <= k < n.len() && #[trigger] n[k].members.contains(m) implies vis(boxes, m) && (m as int)
        < i + 1 by {
        if k < out.len() {
            assert(n[k] == out[k]);
            assert(out[k].members.contains(m));
        } else {
            assert(m == i);
        }
    }
    assert forall|k1: int, k2: int, m: usize|
        0 <= k1 < n.len() && 0 <= k2 < n.len() && k1 != k2 && #[trigger] n[k1].members.contains(
            m,
        ) implies !#[trigger] n[k2].members.contains(m) by {
        if k1 < out.len() {
            assert(n[k1] == out[k1]);
            assert(out[k1].members.contains(m));
            if k2 < out.len() {
                assert(n[k2] == out[k2]);
            } else {
                assert(m != i);
            }
        } else {
            assert(m == i);
            assert(n[k2] == out[k2]);
            if out[k2].members.contains(m) {
                assert((m as int) < i);
            }
        }
    }
    assert forall|m: usize| vis(boxes, m) && (m as int) < i + 1 implies exists|k: int|
        0 <= k < n.len() && #[trigger] n[k].members.contains(m) by {
        if m == i {
            assert(n[out.len() as int].members.contains(m));
        } else {
            let k = choose|k: int| 0 <= k < out.len() && #[trigger] out[k].members.contains(m);
            assert(n[k] == out[k]);
            assert(n[k].members.contains(m));
        }
    }
}


/// Placing a sprite keeps the clustering valid and covers the sprite.
pub proof fn lemma_scan_valid(
    out: Seq<ClusterV>,
    j: int,
    hit: Option<int>,
    i: usize,
    b: (int, int, int, int),
    gap: int,
    boxes: Seq<Option<(int, int, int, int)>>,
)
    requires
        0 <= j,
        vis(boxes, i),
        bx(boxes, i) == b,
        corners_ok(b),
        hit is None ==> valid(out, boxes, i as int),
        hit is Some ==> valid(out, boxes, i + 1) && 0 <= hit.unwrap() < j && hit.unwrap()
            < out.len() && out[hit.unwrap()].members.contains(i),
    ensures
        valid(scan(out, j, hit, i, b, gap), boxes, i + 1),
    decreases out.len() - j,
{
    if j >= out.len() {
        if hit is None {
            lemma_push_valid(out, i, b, boxes);
        }
    } else if touches_c(out[j].bounds, b, gap) {
        match hit {
            None => {
                lemma_join_valid(out, j, i, b, boxes);
                lemma_scan_valid(out.update(j, join(out[j], b, i)), j + 1, Some(j), i, b, gap, boxes);
            },
            Some(h) => {
                lemma_merge_valid(out, h, j, boxes, i + 1);
                lemma_scan_valid(
                    out.remove(j).update(h, absorb(out[h], out[j])),
                    j,
                    hit,
                    i,
                    b,
                    gap,
                    boxes,
                );
            },
        }
    } else {
        lemma_scan_valid(out, j + 1, hit, i, b, gap, boxes);
    }
}

pub proof fn lemma_valid_empty(boxes: Seq<Option<(int, int, int, int)>>)
    ensures
        valid(Seq::<ClusterV>::empty(), boxes, 0),
{
    reveal(v_ok);
    reveal(v_hull);
    reveal(v_mem);
    reveal(v_disj);
    reveal(v_cover);
}

/// An invisible sprite changes nothing.
pub proof fn lemma_valid_skip(out: Seq<ClusterV>, boxes: Seq<Option<(int, int, int, int)>>, n: int)
    requires
        valid(out, boxes, n),
        0 <= n < boxes.len(),
        boxes[n] is None,
    ensures
        valid(out, boxes, n + 1),
{
    reveal(v_mem);
    reveal(v_cover);
    assert forall|m: usize| vis(boxes, m) && (m as int) < n + 1 implies exists|k: int|
        0 <= k < out.len() && #[trigger] out[k].members.contains(m) by {
        assert((m as int) < n);
    }
}

pub proof fn lemma_gather_valid(boxes: Seq<Option<(int, int, int, int)>>, n: int, gap: int)
    requires
        boxes_ok(boxes),
        0 <= n <= boxes.len(),
    ensures
        valid(gather(boxes, n, gap), boxes, n),
    decreases n,
{
    if n == 0 {
        lemma_valid_empty(boxes);
    } else {
        lemma_gather_valid(boxes, n - 1, gap);
        let prev = gather(boxes, n - 1, gap);
        match boxes[n - 1] {
            None => lemma_valid_skip(prev, boxes, n - 1),
            Some(b) => {
                let i = (n - 1) as usize;
                assert(vis(boxes, i));
                assert(corners_ok(boxes[n - 1].unwrap()));
                lemma_scan_valid(prev, 0, None, i, b, gap, boxes);
            },
        }
    }
}

/// The cheapest pair is a pair of distinct clusters, the lower index first.
pub proof fn lemma_best_scan_pair(out: Seq<ClusterV>, a: int, b: int, best: (int, int, int))
    requires
        0 <= a < b,
        0 <= best.0 < best.1 < out.len(),
    ensures
        0 <= best_scan(out, a, b, best).0 < best_scan(out, a, b, best).1 < out.len(),
    decreases out.len() - a, out.len() - b,
{
    if a >= out.len() {
    } else if b >= out.len() {
        lemma_best_scan_pair(out, a + 1, a + 2, best);
    } else {
        let c = cost_c(out[a].bounds, out[b].bounds);
        lemma_best_scan_pair(out, a, b + 1, if c < best.2 { (a, b, c) } else { best });
    }
}

/// The pair that the scan settles on costs no more than the best so far and
/// than every pair from `(a, b)` on; it is either the best so far or a real
/// pair with its own cost.
proof fn lemma_best_scan_min(out: Seq<ClusterV>, a: int, b: int, best: (int, int, int))
    requires
        0 <= a < b,
    ensures
        ({
            let r = best_scan(out, a, b, best);
            &&& r.2 <= best.2
            &&& r == best || (0 <= r.0 < r.1 < out.len() && r.2 == cost_c(out[r.0].bounds, out[r.1].bounds))
            &&& forall|c: int, d: int|
                0 <= c < d < out.len() && (c > a || (c == a && d >= b)) ==> r.2 <= cost_c(
                    #[trigger] out[c].bounds,
                    #[trigger] out[d].bounds,
                )
        }),
    decreases out.len() - a, out.len() - b,
{
    if a >= out.len() {
    } else if b >= out.len() {
        lemma_best_scan_min(out, a + 1, a + 2, best);
    } else {
        let c = cost_c(out[a].bounds, out[b].bounds);
        lemma_best_scan_min(out, a, b + 1, if c < best.2 { (a, b, c) } else { best });
    }
}

/// Each merge of the cap takes the cheapest pair: while there are more
/// clusters than allowed, the cap merges clusters `a < b` whose hull adds no
/// more area to the screen (hull minus both boxes) than that of any other
/// pair of current clusters (any pair whose added area fits in `i64`: pairs
/// beyond that are never preferred), and goes on from the merged list.
pub proof fn law_cap_merges_the_cheapest_pair(out: Seq<ClusterV>, max: int)
    requires
        out.len() > cap_limit(max),
        out.len() >= 2,
    ensures
        exists|a: int, b: int|
            #![trigger merge_pair(out, a, b)]
            {
                &&& 0 <= a < b < out.len()
                &&& cap(out, max) == cap(merge_pair(out, a, b), max)
                &&& forall|c: int, d: int|
                    0 <= c < d < out.len() && area_c(hull2(out[c].bounds, out[d].bounds)) - area_c(out[c].bounds)
                        - area_c(out[d].bounds) < i64::MAX ==> area_c(hull2(out[a].bounds, out[b].bounds))
                        - area_c(out[a].bounds) - area_c(out[b].bounds) <= area_c(
                        hull2(#[trigger] out[c].bounds, #[trigger] out[d].bounds),
                    ) - area_c(out[c].bounds) - area_c(out[d].bounds)
            },
{
    let best = best_scan(out, 0, 1, first_best());
    lemma_best_scan_pair(out, 0, 1, first_best());
    lemma_best_scan_min(out, 0, 1, first_best());
    let a = best.0;
    let b = best.1;
    assert forall|c: int, d: int|
        0 <= c < d < out.len() && area_c(hull2(out[c].bounds, out[d].bounds)) - area_c(out[c].bounds)
            - area_c(out[d].bounds) < i64::MAX implies area_c(hull2(out[a].bounds, out[b].bounds))
            - area_c(out[a].bounds) - area_c(out[b].bounds) <= area_c(
            hull2(#[trigger] out[c].bounds, #[trigger] out[d].bounds),
        ) - area_c(out[c].bounds) - area_c(out[d].bounds) by {
        assert(best.2 <= cost_c(out[c].bounds, out[d].bounds));
    }
    assert(cap(out, max) == cap(merge_pair(out, a, b), max));
}

/// Capping keeps the clustering valid and leaves at most `cap_limit(max)`
/// clusters.
pub proof fn lemma_cap_valid(out: Seq<ClusterV>, max: int, boxes: Seq<Option<(int, int, int, int)>>, upto: int)
    requires
        valid(out, boxes, upto),
    ensures
        valid(cap(out, max), boxes, upto),
        cap(out, max).len() <= cap_limit(max),
        out.len() > 0 ==> cap(out, max).len() > 0,
    decreases out.len(),
{
    if out.len() <= cap_limit(max) || out.len() < 2 {
    } else {
        let best = best_scan(out, 0, 1, first_best());
        lemma_best_scan_pair(out, 0, 1, first_best());
        lemma_merge_valid(out, best.0, best.1, boxes, upto);
        lemma_cap_valid(merge_pair(out, best.0, best.1), max, boxes, upto);
    }
}

/// Every visible sprite of the scene is in exactly one cluster, and clusters
/// hold nothing else.
pub proof fn law_clusters_partition_visible_sprites(
    boxes: Seq<Option<(int, int, int, int)>>,
    gap: int,
    max: int,
)
    requires
        boxes_ok(boxes),
    ensures
        ({
            let c = cluster_spec(boxes, gap, max);
            &&& forall|m: usize|
                vis(boxes, m) <==> exists|k: int| 0 <= k < c.len() && #[trigger] c[k].members.contains(m)
            &&& forall|k1: int, k2: int, m: usize|
                0 <= k1 < c.len() && 0 <= k2 < c.len() && k1 != k2 && #[trigger] c[k1].members.contains(m)
                    ==> !#[trigger] c[k2].members.contains(m)
        }),
{
    let n = boxes.len() as int;
    lemma_gather_valid(boxes, n, gap);
    lemma_cap_valid(gather(boxes, n, gap), max, boxes, n);
    let c = cluster_spec(boxes, gap, max);
    reveal(v_mem);
    reveal(v_disj);
    reveal(v_cover);
    assert forall|m: usize|
        vis(boxes, m) <==> exists|k: int| 0 <= k < c.len() && #[trigger] c[k].members.contains(m) by {
        if exists|k: int| 0 <= k < c.len() && #[trigger] c[k].members.contains(m) {
            let k = choose|k: int| 0 <= k < c.len() && #[trigger] c[k].members.contains(m);
            assert(vis(boxes, m));
        }
    }
}

/// Each cluster's bounds are exactly the hull of its sprites' boxes, and no
/// cluster is empty.
pub proof fn law_cluster_bounds_are_hulls(boxes: Seq<Option<(int, int, int, int)>>, gap: int, max: int)
    requires
        boxes_ok(boxes),
    ensures
        ({
            let c = cluster_spec(boxes, gap, max);
            forall|k: int| 0 <= k < c.len() ==> hull_of(#[trigger] c[k], boxes)
        }),
{
    let n = boxes.len() as int;
    lemma_gather_valid(boxes, n, gap);
    lemma_cap_valid(gather(boxes, n, gap), max, boxes, n);
    let c = cluster_spec(boxes, gap, max);
    reveal(v_hull);
}

/// There are never more clusters than allowed (at least one allowed), and
/// there are none exactly when no sprite is visible.
pub proof fn law_cluster_count_capped(boxes: Seq<Option<(int, int, int, int)>>, gap: int, max: int)
    requires
        boxes_ok(boxes),
    ensures
        cluster_spec(boxes, gap, max).len() <= cap_limit(max),
        cluster_spec(boxes, gap, max).len() == 0 <==> forall|m: usize| !vis(boxes, m),
{
    let n = boxes.len() as int;
    lemma_gather_valid(boxes, n, gap);
    let g = gather(boxes, n, gap);
    lemma_cap_valid(g, max, boxes, n);
    let c = cluster_spec(boxes, gap, max);
    reveal(v_cover);
    reveal(v_hull);
    reveal(hull_of);
    if exists|m: usize| vis(boxes, m) {
        let m = choose|m: usize| vis(boxes, m);
        assert(exists|k: int| 0 <= k < c.len() && #[trigger] c[k].members.contains(m));
    }
    if c.len() > 0 {
        assert(hull_of(c[0], boxes));
        let m = choose|m: usize| #[trigger] c[0].members.contains(m) && bx(boxes, m).0 == c[0].bounds.0;
        reveal(v_mem);
        assert(vis(boxes, m));
    }
}


// ---------------------------------------------------------------------------
// Executable clustering
// ---------------------------------------------------------------------------

pub proof fn lemma_views_update(s: Seq<Cluster>, j: int, c: Cluster)
    requires
        0 <= j < s.len(),
    ensures
        views(s.update(j, c)) == views(s).update(j, c.view()),
{
    assert(views(s.update(j, c)) =~= views(s).update(j, c.view()));
}

pub proof fn lemma_views_merge(s: Seq<Cluster>, h: int, j: int, c: Cluster)
    requires
        0 <= h < j < s.len(),
    ensures
        views(s.remove(j).update(h, c)) == views(s).remove(j).update(h, c.view()),
{
    assert(views(s.remove(j).update(h, c)) =~= views(s).remove(j).update(h, c.view()));
}

/// Sprite `i` joins cluster `j`.
fn join_at(out: &mut Vec<Cluster>, j: usize, i: usize, b: (i32, i32, u32, u32))
    requires
        j < old(out).len(),
        box_ok(b),
        box_ok(old(out)[j as int].bounds),
        sorted_strict(old(out)[j as int].sprites@),
        forall|t: int| 0 <= t < old(out)[j as int].sprites.len() ==> old(out)[j as int].sprites[t] < i,
    ensures
        final(out)@ == old(out)@.update(j as int, final(out)@[j as int]),
        final(out)@[j as int].view() == join(old(out)@[j as int].view(), corners(b), i),
        sorted_strict(final(out)@[j as int].sprites@),
        box_ok(final(out)@[j as int].bounds),
{
    let mut c = out.remove(j);
    let ghost old_sprites = c.sprites@;
    c.bounds = union(c.bounds, b);
    c.sprites.push(i);
    assert(c.sprites@.to_set() =~= old_sprites.to_set().insert(i)) by {
        assert forall|v: usize| c.sprites@.contains(v) <==> (old_sprites.contains(v) || v == i) by {
            if c.sprites@.contains(v) {
                let t = choose|t: int| 0 <= t < c.sprites@.len() && c.sprites@[t] == v;
                if t < old_sprites.len() {
                    assert(old_sprites[t] == v);
                }
            }
            if old_sprites.contains(v) {
                let t = choose|t: int| 0 <= t < old_sprites.len() && old_sprites[t] == v;
                assert(c.sprites@[t] == v);
            }
            if v == i {
                assert(c.sprites@[old_sprites.len() as int] == v);
            }
        }
        assert forall|v: usize| c.sprites@.to_set().contains(v) == old_sprites.to_set().insert(i).contains(v) by {
            assert(c.sprites@.contains(v) <==> (old_sprites.contains(v) || v == i));
        }
    }
    out.insert(j, c);
    assert(out@ =~= old(out)@.update(j as int, out@[j as int]));
}

/// Cluster `j` is merged into cluster `h` (h < j).
fn merge_at(out: &mut Vec<Cluster>, h: usize, j: usize)
    requires
        h < j < old(out).len(),
        box_ok(old(out)[h as int].bounds),
        box_ok(old(out)[j as int].bounds),
        sorted_strict(old(out)[h as int].sprites@),
        sorted_strict(old(out)[j as int].sprites@),
        forall|a: int, b: int|
            0 <= a < old(out)[h as int].sprites.len() && 0 <= b < old(out)[j as int].sprites.len()
                ==> old(out)[h as int].sprites[a] != old(out)[j as int].sprites[b],
    ensures
        final(out)@ == old(out)@.remove(j as int).update(h as int, final(out)@[h as int]),
        final(out)@[h as int].view() == absorb(old(out)@[h as int].view(), old(out)@[j as int].view()),
        sorted_strict(final(out)@[h as int].sprites@),
        box_ok(final(out)@[h as int].bounds),
{
    let merged = out.remove(j);
    let mut t = out.remove(h);
    t.bounds = union(t.bounds, merged.bounds);
    t.sprites = merge_sorted(t.sprites, merged.sprites);
    out.insert(h, t);
    assert(out@ =~= old(out)@.remove(j as int).update(h as int, out@[h as int]));
}

/// Two clusters of a valid clustering share no sprite.
proof fn lemma_disjoint_sprites(out: Seq<Cluster>, boxes: Seq<Option<(int, int, int, int)>>, upto: int, h: int, j: int)
    requires
        valid(views(out), boxes, upto),
        0 <= h < j < out.len(),
    ensures
        forall|a: int, b: int|
            0 <= a < out[h].sprites.len() && 0 <= b < out[j].sprites.len() ==> out[h].sprites[a]
                != out[j].sprites[b],
{
    reveal(v_disj);
    assert forall|a: int, b: int|
        0 <= a < out[h].sprites.len() && 0 <= b < out[j].sprites.len() implies out[h].sprites[a]
        != out[j].sprites[b] by {
        let v = out[h].sprites[a];
        assert(out[h].sprites@.contains(v));
        assert(views(out)[h].members.contains(v));
        if out[j].sprites[b] == v {
            assert(out[j].sprites@.contains(v));
            assert(views(out)[j].members.contains(v));
        }
    }
}

/// Sprites of a valid clustering up to `upto` are all below `upto`.
proof fn lemma_sprites_below(out: Seq<Cluster>, boxes: Seq<Option<(int, int, int, int)>>, upto: int, k: int)
    requires
        valid(views(out), boxes, upto),
        0 <= k < out.len(),
    ensures
        forall|t: int| 0 <= t < out[k].sprites.len() ==> (out[k].sprites[t] as int) < upto,
        box_ok(out[k].bounds),
{
    reveal(v_mem);
    reveal(v_ok);
    assert(corners_ok(views(out)[k].bounds));
    assert forall|t: int| 0 <= t < out[k].sprites.len() implies (out[k].sprites[t] as int) < upto by {
        let v = out[k].sprites[t];
        assert(out[k].sprites@.contains(v));
        assert(views(out)[k].members.contains(v));
    }
}

proof fn lemma_all_ok(out: Seq<Cluster>, boxes: Seq<Option<(int, int, int, int)>>, upto: int)
    requires
        valid(views(out), boxes, upto),
    ensures
        forall|k: int| 0 <= k < out.len() ==> box_ok(#[trigger] out[k].bounds),
{
    reveal(v_ok);
    assert forall|k: int| 0 <= k < out.len() implies box_ok(#[trigger] out[k].bounds) by {
        assert(corners_ok(views(out)[k].bounds));
    }
}

/// Place sprite `i` (box `b`) into the clustering: see [`scan`].
fn place(out: &mut Vec<Cluster>, i: usize, b: (i32, i32, u32, u32), gap: i32, Ghost(boxes): Ghost<Seq<Option<(int, int, int, int)>>>)
    requires
        valid(views(old(out)@), boxes, i as int),
        forall|k: int| 0 <= k < old(out).len() ==> sorted_strict(#[trigger] old(out)@[k].sprites@),
        vis(boxes, i),
        bx(boxes, i) == corners(b),
        box_ok(b),
    ensures
        views(final(out)@) == scan(views(old(out)@), 0, None, i, corners(b), gap as int),
        valid(views(final(out)@), boxes, i + 1),
        forall|k: int| 0 <= k < final(out).len() ==> sorted_strict(#[trigger] final(out)@[k].sprites@),
{
    let ghost target = scan(views(out@), 0, None, i, corners(b), gap as int);
    let ghost bc = corners(b);
    let mut hit: Option<usize> = None;
    let mut j: usize = 0;
    while j < out.len()
        invariant
            vis(boxes, i),
            bx(boxes, i) == bc,
            bc == corners(b),
            box_ok(b),
                scan(
                views(out@),
                j as int,
                match hit {
                    Some(h) => Some(h as int),
                    None => None,
                },
                i,
                bc,
                gap as int,
            ) == target,
            hit is None ==> valid(views(out@), boxes, i as int),
            hit is Some ==> valid(views(out@), boxes, i + 1) && hit.unwrap() < j && hit.unwrap()
                < out.len() && views(out@)[hit.unwrap() as int].members.contains(i),
            forall|k: int| 0 <= k < out.len() ==> sorted_strict(#[trigger] out@[k].sprites@),
        decreases out.len() - j,
    {
        let ghost v = views(out@);
        proof {
            if hit is None {
                lemma_all_ok(out@, boxes, i as int);
            } else {
                lemma_all_ok(out@, boxes, i + 1);
            }
        }
        if touches(out[j].bounds, b, gap) {
            match hit {
                None => {
                    proof {
                        lemma_sprites_below(out@, boxes, i as int, j as int);
                        lemma_join_valid(v, j as int, i, bc, boxes);
                    }
                    let ghost before = out@;
                    join_at(out, j, i, b);
                    proof {
                        lemma_views_update(before, j as int, out@[j as int]);
                        assert forall|k: int| 0 <= k < out.len() implies sorted_strict(
                            #[trigger] out@[k].sprites@,
                        ) by {
                            if k != j {
                                assert(out@[k] == before[k]);
                            }
                        }
                    }
                    hit = Some(j);
                },
                Some(h) => {
                    proof {
                        lemma_disjoint_sprites(out@, boxes, i + 1, h as int, j as int);
                        lemma_merge_valid(v, h as int, j as int, boxes, i + 1);
                    }
                    let ghost before = out@;
                    merge_at(out, h, j);
                    proof {
                        lemma_views_merge(before, h as int, j as int, out@[h as int]);
                        assert forall|k: int| 0 <= k < out.len() implies sorted_strict(
                            #[trigger] out@[k].sprites@,
                        ) by {
                            if k != h {
                                if k < j {
                                    assert(out@[k] == before[k]);
                                } else {
                                    assert(out@[k] == before[k + 1]);
                                }
                            }
                        }
                    }
                    continue;
                },
            }
        }
        j = j + 1;
    }
    if hit.is_none() {
        let ghost before = out@;
        proof {
            lemma_push_valid(views(out@), i, bc, boxes);
        }
        out.push(Cluster { bounds: b, sprites: vec![i] });
        proof {
            assert(out@[out.len() - 1].sprites@.to_set() =~= Set::empty().insert(i)) by {
                assert(out@[out.len() - 1].sprites@ == seq![i]);
            }
            assert(views(out@) =~= views(before).push(single(bc, i)));
            assert forall|k: int| 0 <= k < out.len() implies sorted_strict(#[trigger] out@[k].sprites@) by {
                if k < before.len() {
                    assert(out@[k] == before[k]);
                }
            }
        }
    }
}


/// Area of a box, in a type wide enough for any box.
fn area_wide(a: (i32, i32, u32, u32)) -> (r: i128)
    requires
        box_ok(a),
    ensures
        r == area_c(corners(a)),
{
    proof {
        lemma_area_bounds(corners(a));
    }
    a.2 as i128 * a.3 as i128
}

/// The cheapest pair of clusters to merge: see [`best_scan`].
fn cheapest_pair(out: &Vec<Cluster>) -> (r: (usize, usize))
    requires
        out.len() >= 2,
        forall|k: int| 0 <= k < out.len() ==> box_ok(#[trigger] out@[k].bounds),
    ensures
        r.0 as int == best_scan(views(out@), 0, 1, first_best()).0,
        r.1 as int == best_scan(views(out@), 0, 1, first_best()).1,
{
    let ghost v = views(out@);
    let ghost total = best_scan(v, 0, 1, first_best());
    let mut best: (usize, usize, i128) = (0, 1, i64::MAX as i128);
    let len = out.len();
    let mut a: usize = 0;
    while a < len
        invariant
            len == out.len(),
            v == views(out@),
            forall|k: int| 0 <= k < out.len() ==> box_ok(#[trigger] out@[k].bounds),
            0 <= a <= len,
            best_scan(v, a as int, a + 1, (best.0 as int, best.1 as int, best.2 as int)) == total,
        decreases len - a,
    {
        let mut b: usize = a + 1;
        while b < len
            invariant
                len == out.len(),
                v == views(out@),
                forall|k: int| 0 <= k < out.len() ==> box_ok(#[trigger] out@[k].bounds),
                a < len,
                a + 1 <= b <= len,
                best_scan(v, a as int, b as int, (best.0 as int, best.1 as int, best.2 as int)) == total,
            decreases len - b,
        {
            let x = out[a].bounds;
            let y = out[b].bounds;
            proof {
                assert(box_ok(out@[a as int].bounds));
                assert(box_ok(out@[b as int].bounds));
                lemma_area_bounds(corners(x));
                lemma_area_bounds(corners(y));
                lemma_hull2_ok(corners(x), corners(y));
                lemma_area_bounds(hull2(corners(x), corners(y)));
                assert(v[a as int].bounds == corners(x));
                assert(v[b as int].bounds == corners(y));
            }
            let u = union(x, y);
            let cost = area_wide(u) - area_wide(x) - area_wide(y);
            if cost < best.2 {
                best = (a, b, cost);
            }
            b = b + 1;
        }
        a = a + 1;
    }
    (best.0, best.1)
}

/// Split a scene into clusters. `boxes[i]` is the box of sprite `i`
/// (`(round(x), round(y), max(w, 1), max(h, 1))`), or `None` when the sprite
/// is invisible. Sprites whose boxes touch with margin `gap` share a
/// cluster; at most `max(max, 1)` clusters are returned, the cheapest pairs
/// (least added area) being merged first.
pub fn cluster_scene(boxes: &Vec<Option<(i32, i32, u32, u32)>>, gap: i32, max: usize) -> (out: Vec<Cluster>)
    requires
        forall|i: int| 0 <= i < boxes.len() && boxes[i] is Some ==> box_ok(#[trigger] boxes[i].unwrap()),
    ensures
        views(out@) == cluster_spec(boxes_view(boxes@), gap as int, max as int),
        forall|k: int| 0 <= k < out.len() ==> sorted_strict(#[trigger] out@[k].sprites@),
{
    let ghost bv = boxes_view(boxes@);
    let n = boxes.len();
    assert(boxes_ok(bv)) by {
        assert(bv.len() == n);
        assert forall|i: int| 0 <= i < bv.len() && bv[i] is Some implies corners_ok(#[trigger] bv[i].unwrap()) by {
            assert(bv[i] == (match boxes@[i] {
                Some(b) => Some(corners(b)),
                None => None::<(int, int, int, int)>,
            }));
            assert(boxes@[i] is Some);
            assert(box_ok(boxes@[i].unwrap()));
        }
    }
    proof {
        lemma_valid_empty(bv);
    }
    let mut out: Vec<Cluster> = Vec::new();
    assert(views(out@) =~= gather(bv, 0, gap as int));
    for i in 0..n
        invariant
            n == boxes.len(),
            bv == boxes_view(boxes@),
            boxes_ok(bv),
            forall|i: int| 0 <= i < boxes.len() && boxes[i] is Some ==> box_ok(#[trigger] boxes[i].unwrap()),
                views(out@) == gather(bv, i as int, gap as int),
            valid(views(out@), bv, i as int),
            forall|k: int| 0 <= k < out.len() ==> sorted_strict(#[trigger] out@[k].sprites@),
    {
        match boxes[i] {
            Some(b) => {
                assert(bv[i as int] == Some(corners(b)));
                assert(box_ok(boxes@[i as int].unwrap()));
                place(&mut out, i, b, gap, Ghost(bv));
            },
            None => {
                assert(bv[i as int] is None);
                proof {
                    lemma_valid_skip(views(out@), bv, i as int);
                }
            },
        }
    }
    let ghost gathered = views(out@);
    let limit: usize = if max > 1 { max } else { 1 };
    while out.len() > limit
        invariant
            limit as int == cap_limit(max as int),
            cap(views(out@), max as int) == cap(gathered, max as int),
            valid(views(out@), bv, n as int),
            forall|k: int| 0 <= k < out.len() ==> sorted_strict(#[trigger] out@[k].sprites@),
        decreases out.len(),
    {
        proof {
            lemma_all_ok(out@, bv, n as int);
        }
        let (a, b) = cheapest_pair(&out);
        let ghost v = views(out@);
        proof {
            lemma_best_scan_pair(v, 0, 1, first_best());
            lemma_disjoint_sprites(out@, bv, n as int, a as int, b as int);
            lemma_merge_valid(v, a as int, b as int, bv, n as int);
            lemma_sprites_below(out@, bv, n as int, a as int);
            lemma_sprites_below(out@, bv, n as int, b as int);
        }
        let ghost before = out@;
        merge_at(&mut out, a, b);
        proof {
            lemma_views_merge(before, a as int, b as int, out@[a as int]);
            assert forall|k: int| 0 <= k < out.len() implies sorted_strict(#[trigger] out@[k].sprites@) by {
                if k != a {
                    if k < b {
                        assert(out@[k] == before[k]);
                    } else {
                        assert(out@[k] == before[k + 1]);
                    }
                }
            }
        }
    }
    out
}


/// Hull of the visible boxes among the first `n`; `None` when none is visible.
pub open spec fn hull_all(boxes: Seq<Option<(int, int, int, int)>>, n: int) -> Option<(int, int, int, int)>
    decreases n,
{
    if n <= 0 {
        None
    } else {
        let prev = hull_all(boxes, n - 1);
        match boxes[n - 1] {
            None => prev,
            Some(b) => match prev {
                None => Some(b),
                Some(h) => Some(hull2(h, b)),
            },
        }
    }
}

/// The union of all visible sprites' boxes; `None` when nothing is visible.
pub fn scene_bounds(boxes: &Vec<Option<(i32, i32, u32, u32)>>) -> (r: Option<(i32, i32, u32, u32)>)
    requires
        forall|i: int| 0 <= i < boxes.len() && boxes[i] is Some ==> box_ok(#[trigger] boxes[i].unwrap()),
    ensures
        match r {
            None => hull_all(boxes_view(boxes@), boxes.len() as int) is None,
            Some(b) => box_ok(b) && hull_all(boxes_view(boxes@), boxes.len() as int) == Some(corners(b)),
        },
{
    let ghost bv = boxes_view(boxes@);
    let mut acc: Option<(i32, i32, u32, u32)> = None;
    let n = boxes.len();
    for i in 0..n
        invariant
            n == boxes.len(),
            bv == boxes_view(boxes@),
            forall|i: int| 0 <= i < boxes.len() && boxes[i] is Some ==> box_ok(#[trigger] boxes[i].unwrap()),
            match acc {
                None => hull_all(bv, i as int) is None,
                Some(b) => box_ok(b) && hull_all(bv, i as int) == Some(corners(b)),
            },
    {
        match boxes[i] {
            Some(b) => {
                assert(bv[i as int] == Some(corners(b)));
                assert(box_ok(boxes@[i as int].unwrap()));
                acc = match acc {
                    None => Some(b),
                    Some(h) => Some(union(h, b)),
                };
            },
            None => {
                assert(bv[i as int] is None);
            },
        }
    }
    acc
}

/// The scene's bounds hold every visible sprite's box, and there are bounds
/// exactly when some sprite is visible.
pub proof fn law_scene_bounds_hold_every_sprite(boxes: Seq<Option<(int, int, int, int)>>, n: int)
    requires
        0 <= n <= boxes.len(),
    ensures
        hull_all(boxes, n) is None <==> forall|i: int| 0 <= i < n ==> boxes[i] is None,
        hull_all(boxes, n) is Some ==> forall|i: int|
            0 <= i < n && boxes[i] is Some ==> contains(hull_all(boxes, n).unwrap(), #[trigger] boxes[i].unwrap()),
    decreases n,
{
    if n > 0 {
        law_scene_bounds_hold_every_sprite(boxes, n - 1);
        if hull_all(boxes, n) is None {
            assert forall|i: int| 0 <= i < n implies boxes[i] is None by {
                if i < n - 1 {
                }
            }
        }
        if hull_all(boxes, n) is Some {
            assert forall|i: int| 0 <= i < n && boxes[i] is Some implies contains(
                hull_all(boxes, n).unwrap(),
                #[trigger] boxes[i].unwrap(),
            ) by {
                if i < n - 1 && hull_all(boxes, n - 1) is Some {
                    assert(contains(hull_all(boxes, n - 1).unwrap(), boxes[i].unwrap()));
                }
            }
        }
    }
}

} // verus!
