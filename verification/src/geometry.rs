//! Global-coordinate geometry: positions, output rectangles, clamping and
//! output hit-testing.
//!
//! Coordinates are fixed-point integers in one global space that spans all
//! outputs; the embedder picks the scale and uses it consistently for
//! positions, deltas and output geometry. Peer-supplied values may be
//! arbitrary `i64`s; output rectangles reported by the host are bounded by
//! `MAX_EXTENT`, which keeps every sum this module forms inside `i64`.

use vstd::prelude::*;

verus! {

/// Largest magnitude the host may report for an output's corner, and the
/// largest width or height: generous against any real display layout, and
/// small enough that coordinate sums never overflow an `i64`.
pub const MAX_EXTENT: i64 = 0x100_0000_0000;

/// A position in the global coordinate space.
#[derive(Clone, Copy, Debug, PartialEq, Eq)]
pub struct Pos {
    pub x: i64,
    pub y: i64,
}

/// One output's addressable rectangle `[x, x+w) x [y, y+h)`.
#[derive(Clone, Copy, Debug, PartialEq, Eq)]
pub struct OutputRect {
    pub x: i64,
    pub y: i64,
    pub w: i64,
    pub h: i64,
}

impl OutputRect {
    /// A host-reported rectangle: non-empty and within `MAX_EXTENT`.
    pub open spec fn wf(&self) -> bool {
        &&& -MAX_EXTENT <= self.x <= MAX_EXTENT
        &&& -MAX_EXTENT <= self.y <= MAX_EXTENT
        &&& 1 <= self.w <= MAX_EXTENT
        &&& 1 <= self.h <= MAX_EXTENT
    }

    /// Whether `p` lies inside the half-open rectangle.
    pub open spec fn spec_contains(&self, p: Pos) -> bool {
        &&& self.x <= p.x < self.x + self.w
        &&& self.y <= p.y < self.y + self.h
    }

    pub fn contains(&self, p: &Pos) -> (r: bool)
        requires
            self.wf(),
        ensures
            r == self.spec_contains(*p),
    {
        p.x >= self.x && p.x < self.x + self.w && p.y >= self.y && p.y < self.y + self.h
    }
}

/// `v` clamped to the inclusive range `[lo, hi]`.
pub open spec fn spec_clamp(v: int, lo: int, hi: int) -> int
    recommends
        lo <= hi,
{
    if v < lo {
        lo
    } else if v > hi {
        hi
    } else {
        v
    }
}

pub fn clamp_i64(v: i64, lo: i64, hi: i64) -> (r: i64)
    requires
        lo <= hi,
    ensures
        r == spec_clamp(v as int, lo as int, hi as int),
{
    if v < lo {
        lo
    } else if v > hi {
        hi
    } else {
        v
    }
}

/// Where a position lands when clamped into an output rectangle: each axis
/// clamped to the inclusive range ending one unit inside the far edge.
pub open spec fn spec_clamp_to_rect(p: Pos, r: OutputRect) -> Pos
    recommends
        r.wf(),
{
    Pos {
        x: spec_clamp(p.x as int, r.x as int, r.x + r.w - 1) as i64,
        y: spec_clamp(p.y as int, r.y as int, r.y + r.h - 1) as i64,
    }
}

pub fn clamp_to_rect(p: &Pos, r: &OutputRect) -> (c: Pos)
    requires
        r.wf(),
    ensures
        c == spec_clamp_to_rect(*p, *r),
{
    Pos { x: clamp_i64(p.x, r.x, r.x + r.w - 1), y: clamp_i64(p.y, r.y, r.y + r.h - 1) }
}

/// Law: a clamped position always lies inside the rectangle it was clamped
/// to, whatever position the peer drove the pointer towards.
pub proof fn lemma_clamp_stays_inside(p: Pos, r: OutputRect)
    requires
        r.wf(),
    ensures
        r.spec_contains(spec_clamp_to_rect(p, r)),
        r.x <= spec_clamp_to_rect(p, r).x <= r.x + r.w - 1,
        r.y <= spec_clamp_to_rect(p, r).y <= r.y + r.h - 1,
{
}

/// Law: clamping does not move a position that is already inside.
pub proof fn lemma_clamp_keeps_inside_points(p: Pos, r: OutputRect)
    requires
        r.wf(),
        r.spec_contains(p),
    ensures
        spec_clamp_to_rect(p, r) == p,
{
}

/// `a + b` held inside the `i64` range, so that an absurd peer delta drives
/// the pointer to the edge of the representable space instead of wrapping.
pub open spec fn spec_sat_add(a: int, b: int) -> int {
    if a + b > i64::MAX as int {
        i64::MAX as int
    } else if a + b < i64::MIN as int {
        i64::MIN as int
    } else {
        a + b
    }
}

pub fn sat_add_i64(a: i64, b: i64) -> (r: i64)
    ensures
        r == spec_sat_add(a as int, b as int),
{
    let s: i128 = a as i128 + b as i128;
    if s > i64::MAX as i128 {
        i64::MAX
    } else if s < i64::MIN as i128 {
        i64::MIN
    } else {
        s as i64
    }
}

/// Index of the first output whose rectangle contains `p`, if any.
pub open spec fn spec_first_containing(outputs: Seq<OutputRect>, p: Pos) -> Option<int>
    decreases outputs.len(),
{
    if outputs.len() == 0 {
        None
    } else if outputs[0].spec_contains(p) {
        Some(0)
    } else {
        match spec_first_containing(outputs.skip(1), p) {
            None => None,
            Some(i) => Some(i + 1),
        }
    }
}

/// What `spec_first_containing` yields: the first index that contains `p`,
/// or nothing when no output does.
pub proof fn lemma_first_containing_characterization(outputs: Seq<OutputRect>, p: Pos)
    ensures
        match spec_first_containing(outputs, p) {
            Some(i) => {
                &&& 0 <= i < outputs.len()
                &&& outputs[i].spec_contains(p)
                &&& forall|j: int| 0 <= j < i ==> !outputs[j].spec_contains(p)
            },
            None => forall|j: int| 0 <= j < outputs.len() ==> !outputs[j].spec_contains(p),
        },
    decreases outputs.len(),
{
    if outputs.len() > 0 && !outputs[0].spec_contains(p) {
        let tail = outputs.skip(1);
        lemma_first_containing_characterization(tail, p);
        assert(forall|j: int| 0 <= j < tail.len() ==> tail[j] == outputs[j + 1]);
        match spec_first_containing(tail, p) {
            Some(i) => {
                assert(tail[i] == outputs[i + 1]);
                assert forall|j: int| 0 <= j < i + 1 implies !outputs[j].spec_contains(p) by {
                    if j > 0 {
                        assert(tail[j - 1] == outputs[j]);
                    }
                }
            },
            None => {
                assert forall|j: int| 0 <= j < outputs.len() implies !outputs[j].spec_contains(
                    p,
                ) by {
                    if j > 0 {
                        assert(tail[j - 1] == outputs[j]);
                    }
                }
            },
        }
    }
}

/// First output containing `p`, as an index into `outputs`.
pub fn find_output(outputs: &Vec<OutputRect>, p: &Pos) -> (r: Option<usize>)
    requires
        forall|j: int| 0 <= j < outputs@.len() ==> outputs@[j].wf(),
    ensures
        match r {
            Some(i) => i < outputs@.len() && spec_first_containing(outputs@, *p) == Some(i as int),
            None => spec_first_containing(outputs@, *p) is None,
        },
{
    proof {
        lemma_first_containing_characterization(outputs@, *p);
    }
    let mut i: usize = 0;
    while i < outputs.len()
        invariant
            i <= outputs@.len(),
            forall|j: int| 0 <= j < outputs@.len() ==> outputs@[j].wf(),
            forall|j: int| 0 <= j < i ==> !outputs@[j].spec_contains(*p),
            match spec_first_containing(outputs@, *p) {
                Some(k) => {
                    &&& 0 <= k < outputs@.len()
                    &&& outputs@[k].spec_contains(*p)
                    &&& forall|j: int| 0 <= j < k ==> !outputs@[j].spec_contains(*p)
                },
                None => forall|j: int| 0 <= j < outputs@.len() ==> !outputs@[j].spec_contains(*p),
            },
        decreases outputs@.len() - i,
    {
        if outputs[i].contains(p) {
            return Some(i);
        }
        i = i + 1;
    }
    None
}

} // verus!
