//! Quadric-error-metric mesh simplification: an iterative edge-collapse
//! engine over a tombstoned working set, followed by a compaction pass that
//! re-indexes the survivors into dense arrays.
//!
//! The working set owns three arrays: vertex records, triangle records and a
//! shared reference table linking each vertex to its incident triangles
//! through a `(tstart, tcount)` window. Well-formedness (`Simplifier::wf`)
//! keeps every stored index inside the arrays it points into, so no access
//! in the engine can go out of bounds.

use vstd::prelude::*;
use std::collections::HashMap;
use crate::scalar::{fadd, fdiv, fmin, fneg, feq, flt, fabs, fmul, fpow, f_of_uint};
use crate::scalar::{F_ZERO, F_MAX, F_ONE, F_NEG_ONE, F_DET_EPS, F_THRESHOLD_BASE, F_THREE,
    F_COLINEAR, F_FLIP};
use crate::scalar::{add_f, mul_f, min_f, eq_f, lt_f, abs_f, neg_f, uint_to_f, pow_f,
    div_f};
use crate::vec3::Point3;
use crate::quadric::{SymmetricMatrix, spec_det3};

verus! {

broadcast use vstd::std_specs::hash::group_hash_axioms, vstd::std_specs::vec::group_vec_axioms;

/// The fixed cap on simplification passes.
pub const MAX_PASSES: usize = 100;

/// A full rebuild of the reference table happens on pass 0 and on every
/// pass whose index is a multiple of this interval.
pub const REBUILD_INTERVAL: usize = 5;

/// A per-invocation vertex record of the decimation working set.
#[derive(Clone, Copy, Debug)]
pub struct Vertex {
    /// Current position.
    pub p: Point3,
    /// Start of this vertex's window into the shared reference table.
    pub tstart: usize,
    /// Number of reference entries in the window.
    pub tcount: usize,
    /// Accumulated error quadric.
    pub q: SymmetricMatrix,
    /// Whether the vertex lies on a boundary edge.
    pub border: bool,
}

/// A per-invocation triangle record of the decimation working set.
#[derive(Clone, Copy, Debug)]
pub struct Triangle {
    /// The three vertex indices.
    pub v: [usize; 3],
    /// Per-edge collapse errors for edges (0,1), (1,2), (2,0), and their
    /// minimum in the last slot.
    pub err: [u64; 4],
    /// Tombstone: a deleted triangle is never read again by the algorithm.
    pub deleted: bool,
    /// Set when the triangle's indices changed during the current pass; a
    /// dirty triangle is skipped for the rest of the pass.
    pub dirty: bool,
    /// Unit normal, computed during quadric initialization.
    pub n: Point3,
}

/// One entry of the shared reference table: a triangle incident to a vertex
/// and the corner (0, 1 or 2) the vertex occupies there.
#[derive(Clone, Copy, Debug)]
pub struct TriRef {
    pub tid: usize,
    pub tvertex: usize,
}

/// Whether all three vertex indices of a triangle lie below `nv`.
pub open spec fn tri_valid(t: Triangle, nv: int) -> bool {
    t.v[0] < nv && t.v[1] < nv && t.v[2] < nv
}

/// The number of non-deleted triangles in a sequence.
pub open spec fn live_count(s: Seq<Triangle>) -> int
    decreases s.len(),
{
    if s.len() == 0 {
        0
    } else if s.last().deleted {
        live_count(s.drop_last())
    } else {
        live_count(s.drop_last()) + 1
    }
}

/// The live count lies between zero and the sequence length.
pub proof fn lemma_live_count_bounds(s: Seq<Triangle>)
    ensures
        0 <= live_count(s) <= s.len(),
    decreases s.len(),
{
    if s.len() > 0 {
        lemma_live_count_bounds(s.drop_last());
    }
}

/// Replacing one element changes the live count by the difference of the
/// two elements' tombstone flags.
pub proof fn lemma_live_count_update(s: Seq<Triangle>, i: int, t: Triangle)
    requires
        0 <= i < s.len(),
    ensures
        live_count(s.update(i, t)) == live_count(s) + (if t.deleted {
            0int
        } else {
            1int
        }) - (if s[i].deleted {
            0int
        } else {
            1int
        }),
    decreases s.len(),
{
    let su = s.update(i, t);
    if i == s.len() - 1 {
        assert(su.drop_last() =~= s.drop_last());
    } else {
        assert(su.drop_last() =~= s.drop_last().update(i, t));
        lemma_live_count_update(s.drop_last(), i, t);
    }
}

/// Extending the prefix by one element adds that element's liveness.
pub proof fn lemma_live_count_take_step(s: Seq<Triangle>, i: int)
    requires
        0 <= i < s.len(),
    ensures
        live_count(s.take(i + 1)) == live_count(s.take(i)) + (if s[i].deleted {
            0int
        } else {
            1int
        }),
{
    assert(s.take(i + 1).drop_last() =~= s.take(i));
}

/// The non-deleted triangles of a sequence, in their original order.
pub open spec fn live_seq(s: Seq<Triangle>) -> Seq<Triangle>
    decreases s.len(),
{
    if s.len() == 0 {
        Seq::empty()
    } else if s.last().deleted {
        live_seq(s.drop_last())
    } else {
        live_seq(s.drop_last()).push(s.last())
    }
}

/// The filtered sequence has exactly the live count's length.
pub proof fn lemma_live_seq_len(s: Seq<Triangle>)
    ensures
        live_seq(s).len() == live_count(s),
    decreases s.len(),
{
    if s.len() > 0 {
        lemma_live_seq_len(s.drop_last());
    }
}

/// Extending the prefix appends the element exactly when it is live.
pub proof fn lemma_live_seq_take_step(s: Seq<Triangle>, i: int)
    requires
        0 <= i < s.len(),
    ensures
        live_seq(s.take(i + 1)) == if s[i].deleted {
            live_seq(s.take(i))
        } else {
            live_seq(s.take(i)).push(s[i])
        },
{
    assert(s.take(i + 1).drop_last() =~= s.take(i));
}

/// A sequence with no tombstones has live count equal to its length.
pub proof fn lemma_live_count_all_live(s: Seq<Triangle>)
    requires
        forall|i: int| 0 <= i < s.len() ==> !(#[trigger] s[i]).deleted,
    ensures
        live_count(s) == s.len(),
    decreases s.len(),
{
    if s.len() > 0 {
        lemma_live_count_all_live(s.drop_last());
    }
}

/// The sum of a sequence of counters.
pub open spec fn sum_usize(s: Seq<usize>) -> int
    decreases s.len(),
{
    if s.len() == 0 {
        0
    } else {
        sum_usize(s.drop_last()) + s.last()
    }
}

/// A sum of counters is non-negative.
pub proof fn lemma_sum_nonneg(s: Seq<usize>)
    ensures
        sum_usize(s) >= 0,
    decreases s.len(),
{
    if s.len() > 0 {
        lemma_sum_nonneg(s.drop_last());
    }
}

/// Extending the prefix by one element adds that element to the sum.
pub proof fn lemma_sum_take_step(s: Seq<usize>, i: int)
    requires
        0 <= i < s.len(),
    ensures
        sum_usize(s.take(i + 1)) == sum_usize(s.take(i)) + s[i],
{
    assert(s.take(i + 1).drop_last() =~= s.take(i));
}

/// Replacing one element changes the sum by the difference.
pub proof fn lemma_sum_update(s: Seq<usize>, i: int, v: usize)
    requires
        0 <= i < s.len(),
    ensures
        sum_usize(s.update(i, v)) == sum_usize(s) + v - s[i],
    decreases s.len(),
{
    let su = s.update(i, v);
    if i == s.len() - 1 {
        assert(su.drop_last() =~= s.drop_last());
    } else {
        assert(su.drop_last() =~= s.drop_last().update(i, v));
        lemma_sum_update(s.drop_last(), i, v);
    }
}

/// A prefix sum never exceeds the whole sum.
pub proof fn lemma_sum_take_le(s: Seq<usize>, i: int)
    requires
        0 <= i <= s.len(),
    ensures
        sum_usize(s.take(i)) <= sum_usize(s),
    decreases s.len() - i,
{
    if i == s.len() {
        assert(s.take(i) =~= s);
    } else {
        lemma_sum_take_step(s, i);
        lemma_sum_take_le(s, i + 1);
    }
}

/// Prefix sums grow with the prefix.
pub proof fn lemma_sum_take_mono(s: Seq<usize>, a: int, b: int)
    requires
        0 <= a <= b <= s.len(),
    ensures
        sum_usize(s.take(a)) <= sum_usize(s.take(b)),
    decreases b - a,
{
    if a < b {
        lemma_sum_take_step(s, b - 1);
        lemma_sum_take_mono(s, a, b - 1);
    }
}

/// Every filled window entry of every vertex names a live triangle that
/// holds that vertex at the named corner.
pub open spec fn windows_list_incidences(s: Simplifier) -> bool {
    forall|v: int, k: int|
        #![trigger s.refs@[s.vertices@[v].tstart + k]]
        0 <= v < s.vertices@.len() && 0 <= k < s.vertices@[v].tcount ==> {
            let e = s.refs@[s.vertices@[v].tstart + k];
            &&& e.tid < s.triangles@.len()
            &&& e.tvertex < 3
            &&& !s.triangles@[e.tid as int].deleted
            &&& s.triangles@[e.tid as int].v[e.tvertex as int] == v
        }
}

/// Each vertex's full window region starts at the prefix sum of the
/// per-vertex capacities and never exceeds its own capacity, so distinct
/// vertices' regions are disjoint.
pub open spec fn windows_at_prefix_sums(vs: Seq<Vertex>, counts: Seq<usize>) -> bool {
    &&& counts.len() == vs.len()
    &&& forall|v: int|
        0 <= v < vs.len() ==> (#[trigger] vs[v]).tstart == sum_usize(counts.take(v))
    &&& forall|v: int| 0 <= v < vs.len() ==> (#[trigger] vs[v]).tcount <= counts[v]
}

/// Window incidences survive any step that keeps the reference table, the
/// windows, and the triangles' corners and tombstones.
proof fn lemma_windows_incidences_preserved(a: Simplifier, b: Simplifier)
    requires
        windows_list_incidences(a),
        b.refs@ == a.refs@,
        b.vertices@.len() == a.vertices@.len(),
        forall|v: int|
            0 <= v < b.vertices@.len() ==> ((#[trigger] b.vertices@[v]).tstart
                == a.vertices@[v].tstart && b.vertices@[v].tcount == a.vertices@[v].tcount),
        b.triangles@.len() == a.triangles@.len(),
        forall|t: int|
            0 <= t < b.triangles@.len() ==> ((#[trigger] b.triangles@[t]).v == a.triangles@[t].v
                && b.triangles@[t].deleted == a.triangles@[t].deleted),
    ensures
        windows_list_incidences(b),
{
    assert forall|v: int, k: int|
        #![trigger b.refs@[b.vertices@[v].tstart + k]]
        0 <= v < b.vertices@.len() && 0 <= k < b.vertices@[v].tcount implies {
        let e = b.refs@[b.vertices@[v].tstart + k];
        &&& e.tid < b.triangles@.len()
        &&& e.tvertex < 3
        &&& !b.triangles@[e.tid as int].deleted
        &&& b.triangles@[e.tid as int].v[e.tvertex as int] == v
    } by {
        assert(a.refs@[a.vertices@[v].tstart + k] == b.refs@[b.vertices@[v].tstart + k]);
    }
}

/// Whether one of the triangle's three corners is vertex `j`.
pub open spec fn tri_has_vertex(t: Triangle, j: int) -> bool {
    t.v[0] == j || t.v[1] == j || t.v[2] == j
}

/// Whether some face triple of the sequence references vertex `j`.
pub open spec fn face_references(faces: Seq<(usize, usize, usize)>, j: int) -> bool {
    exists|i: int|
        0 <= i < faces.len() && ((#[trigger] faces[i]).0 == j || faces[i].1 == j || faces[i].2
            == j)
}

/// Whether some triangle of the sequence references vertex `j`.
pub open spec fn appears_in(s: Seq<Triangle>, j: int) -> bool {
    exists|i: int| 0 <= i < s.len() && tri_has_vertex(#[trigger] s[i], j)
}

/// Every marked vertex appears in some triangle of the sequence. Kept
/// opaque: its body mentions the marks of a triangle's corners, which would
/// otherwise re-trigger the quantifier endlessly.
#[verifier::opaque]
pub open spec fn marks_covered(used: Seq<bool>, kept: Seq<Triangle>) -> bool {
    forall|k: int| 0 <= k < used.len() ==> (#[trigger] used[k] ==> appears_in(kept, k))
}

/// The number of set flags in a sequence.
pub open spec fn count_true(s: Seq<bool>) -> int
    decreases s.len(),
{
    if s.len() == 0 {
        0
    } else if s.last() {
        count_true(s.drop_last()) + 1
    } else {
        count_true(s.drop_last())
    }
}

/// The count of set flags lies between zero and the sequence length.
pub proof fn lemma_count_true_bounds(s: Seq<bool>)
    ensures
        0 <= count_true(s) <= s.len(),
    decreases s.len(),
{
    if s.len() > 0 {
        lemma_count_true_bounds(s.drop_last());
    }
}

/// Replacing one flag changes the count by the difference of the flags.
pub proof fn lemma_count_true_update(s: Seq<bool>, i: int, b: bool)
    requires
        0 <= i < s.len(),
    ensures
        count_true(s.update(i, b)) == count_true(s) + (if b {
            1int
        } else {
            0int
        }) - (if s[i] {
            1int
        } else {
            0int
        }),
    decreases s.len(),
{
    let su = s.update(i, b);
    if i == s.len() - 1 {
        assert(su.drop_last() =~= s.drop_last());
    } else {
        assert(su.drop_last() =~= s.drop_last().update(i, b));
        lemma_count_true_update(s.drop_last(), i, b);
    }
}

/// The decimation working set: a per-invocation arena of vertex records,
/// triangle records and the shared vertex-to-triangle reference table.
pub struct Simplifier {
    pub vertices: Vec<Vertex>,
    pub triangles: Vec<Triangle>,
    pub refs: Vec<TriRef>,
}

/// How many of the first `n` corner slots (three per triangle, in scan
/// order) belong to a live triangle and hold vertex `v`.
pub open spec fn occ_slots(s: Seq<Triangle>, v: int, n: int) -> int
    decreases n,
{
    if n <= 0 {
        0
    } else {
        occ_slots(s, v, n - 1) + if !s[(n - 1) / 3].deleted && s[(n - 1) / 3].v[((n - 1) % 3) as int]
            == v {
            1int
        } else {
            0int
        }
    }
}

/// One corner slot adds one exactly when it is a live occurrence of `v`.
pub proof fn lemma_occ_step(s: Seq<Triangle>, v: int, n: int)
    requires
        n >= 0,
    ensures
        occ_slots(s, v, n + 1) == occ_slots(s, v, n) + if !s[n / 3].deleted && s[n / 3].v[(n
            % 3) as int] == v {
            1int
        } else {
            0int
        },
{
}

/// The census is never negative.
pub proof fn lemma_occ_nonneg(s: Seq<Triangle>, v: int, n: int)
    ensures
        occ_slots(s, v, n) >= 0,
    decreases n,
{
    if n > 0 {
        lemma_occ_nonneg(s, v, n - 1);
    }
}

/// The census grows with the slot count, by at most one per slot.
pub proof fn lemma_occ_bounds(s: Seq<Triangle>, v: int, a: int, b: int)
    requires
        0 <= a <= b,
    ensures
        0 <= occ_slots(s, v, a) <= occ_slots(s, v, b) <= occ_slots(s, v, a) + (b - a),
    decreases b - a,
{
    lemma_occ_nonneg(s, v, a);
    if a < b {
        lemma_occ_bounds(s, v, a, b - 1);
        lemma_occ_step(s, v, b - 1);
    }
}

/// The census depends only on the triangles' corners and tombstones.
pub proof fn lemma_occ_congruent(s1: Seq<Triangle>, s2: Seq<Triangle>, v: int, n: int)
    requires
        s1.len() == s2.len(),
        forall|i: int|
            0 <= i < s1.len() ==> ((#[trigger] s2[i]).v == s1[i].v && s2[i].deleted
                == s1[i].deleted),
        0 <= n <= 3 * s1.len(),
    ensures
        occ_slots(s1, v, n) == occ_slots(s2, v, n),
    decreases n,
{
    if n > 0 {
        lemma_occ_congruent(s1, s2, v, n - 1);
    }
}

/// The sum of the window sizes of the first `upto` vertices.
pub open spec fn sum_tcounts(vs: Seq<Vertex>, upto: int) -> int
    decreases upto,
{
    if upto <= 0 {
        0
    } else {
        sum_tcounts(vs, upto - 1) + vs[upto - 1].tcount
    }
}

/// Window sums agree with capacity sums when every window fills its
/// capacity exactly.
pub proof fn lemma_sum_tcounts_eq(vs: Seq<Vertex>, counts: Seq<usize>, upto: int)
    requires
        counts.len() == vs.len(),
        0 <= upto <= vs.len(),
        forall|v: int| 0 <= v < vs.len() ==> (#[trigger] vs[v]).tcount == counts[v],
    ensures
        sum_tcounts(vs, upto) == sum_usize(counts.take(upto)),
    decreases upto,
{
    if upto > 0 {
        lemma_sum_tcounts_eq(vs, counts, upto - 1);
        lemma_sum_take_step(counts, upto - 1);
    }
}

/// The all-zero quadric every vertex starts from.
pub open spec fn zero_quadric() -> SymmetricMatrix {
    SymmetricMatrix {
        m: [F_ZERO, F_ZERO, F_ZERO, F_ZERO, F_ZERO, F_ZERO, F_ZERO, F_ZERO, F_ZERO, F_ZERO],
    }
}

/// The quadric of a triangle's supporting plane: built from its unit normal
/// and the plane offset at its first corner.
pub open spec fn spec_plane_quadric(vs: Seq<Vertex>, v: [usize; 3]) -> SymmetricMatrix {
    let n = spec_face_unit_normal(vs, v);
    SymmetricMatrix::spec_from_plane(n.x, n.y, n.z, fneg(n.spec_dot(vs[v[0] as int].p)))
}

/// The quadric vertex `v` has accumulated after the first `upto` triangles:
/// the supporting-plane quadric of every live triangle that holds `v`,
/// added once per corner in scan order.
pub open spec fn spec_accumulated_quadric(
    s: Seq<Triangle>,
    vs: Seq<Vertex>,
    v: int,
    upto: int,
) -> SymmetricMatrix
    decreases upto,
{
    if upto <= 0 {
        zero_quadric()
    } else {
        let q = spec_accumulated_quadric(s, vs, v, upto - 1);
        let t = s[upto - 1];
        if t.deleted {
            q
        } else {
            let pq = spec_plane_quadric(vs, t.v);
            let q0 = if t.v[0] == v {
                q.spec_plus(pq)
            } else {
                q
            };
            let q1 = if t.v[1] == v {
                q0.spec_plus(pq)
            } else {
                q0
            };
            if t.v[2] == v {
                q1.spec_plus(pq)
            } else {
                q1
            }
        }
    }
}

/// The accumulated quadric depends only on the triangles' corners and
/// tombstones and the vertices' positions.
proof fn lemma_accumulated_quadric_congruent(
    s1: Seq<Triangle>,
    s2: Seq<Triangle>,
    vs1: Seq<Vertex>,
    vs2: Seq<Vertex>,
    v: int,
    upto: int,
)
    requires
        s1.len() == s2.len(),
        vs1.len() == vs2.len(),
        forall|i: int|
            0 <= i < s1.len() ==> ((#[trigger] s2[i]).v == s1[i].v && s2[i].deleted
                == s1[i].deleted),
        forall|i: int| 0 <= i < vs1.len() ==> (#[trigger] vs2[i]).p == vs1[i].p,
        forall|i: int| 0 <= i < s1.len() ==> tri_valid(#[trigger] s1[i], vs1.len() as int),
        0 <= upto <= s1.len(),
    ensures
        spec_accumulated_quadric(s1, vs1, v, upto) == spec_accumulated_quadric(s2, vs2, v, upto),
    decreases upto,
{
    if upto > 0 {
        lemma_accumulated_quadric_congruent(s1, s2, vs1, vs2, v, upto - 1);
        if !s1[upto - 1].deleted {
            assert(spec_plane_quadric(vs1, s1[upto - 1].v) == spec_plane_quadric(
                vs2,
                s2[upto - 1].v,
            ));
        }
    }
}

/// The acceptance threshold of pass `i`: `1e-9 * (i + 3) ^ aggressiveness`
/// over the named scalar operations; it grows with the pass index, so early
/// passes only touch near-zero-error edges.
pub open spec fn spec_pass_threshold(i: usize, aggressiveness: u64) -> u64 {
    fmul(F_THRESHOLD_BASE, fpow(fadd(f_of_uint(i), F_THREE), aggressiveness))
}

/// The per-edge error block of a triangle with corners `v`: the collapse
/// error of each of its three edges in order, and their minimum.
pub open spec fn spec_tri_errs(vs: Seq<Vertex>, v: [usize; 3]) -> [u64; 4] {
    let e0 = spec_calc_error(vs[v[0] as int], vs[v[1] as int]).0;
    let e1 = spec_calc_error(vs[v[1] as int], vs[v[2] as int]).0;
    let e2 = spec_calc_error(vs[v[2] as int], vs[v[0] as int]).0;
    [e0, e1, e2, fmin(e0, fmin(e1, e2))]
}

/// The unit normal a triangle with corners `v` receives at quadric
/// initialization: the normalized cross product of its two edge vectors
/// from the first corner.
pub open spec fn spec_face_unit_normal(vs: Seq<Vertex>, v: [usize; 3]) -> Point3 {
    let p0 = vs[v[0] as int].p;
    let p1 = vs[v[1] as int].p;
    let p2 = vs[v[2] as int].p;
    p1.spec_minus(p0).spec_cross(p2.spec_minus(p0)).spec_normalized()
}

/// The seeded per-edge error block of a triangle with corners `v`: the
/// seeded error of each of its three edges in order, and their minimum.
pub open spec fn spec_seed_errs(vs: Seq<Vertex>, v: [usize; 3]) -> [u64; 4] {
    let e0 = Simplifier::spec_seed_error(vs[v[0] as int], vs[v[1] as int]);
    let e1 = Simplifier::spec_seed_error(vs[v[1] as int], vs[v[2] as int]);
    let e2 = Simplifier::spec_seed_error(vs[v[2] as int], vs[v[0] as int]);
    [e0, e1, e2, fmin(e0, fmin(e1, e2))]
}

/// Whether the window entry `k` of vertex `i0` names a live triangle that
/// contains the collapsing edge to `i1`: exactly the triangles a committed
/// collapse will tombstone.
pub open spec fn spec_edge_flag(s: Simplifier, i0: int, i1: int, k: int) -> bool {
    let r = s.refs@[s.vertices@[i0].tstart + k];
    let t = s.triangles@[r.tid as int];
    !t.deleted && (t.v[((r.tvertex + 1) % 3) as int] == i1 || t.v[((r.tvertex + 2) % 3) as int]
        == i1)
}

/// Whether window entry `k` of vertex `i0` names a live triangle that does
/// not contain the other endpoint `i1`: exactly the survivors the flip
/// guard examines.
pub open spec fn spec_guard_applies(s: Simplifier, i0: int, i1: int, k: int) -> bool {
    let r = s.refs@[s.vertices@[i0].tstart + k];
    let t = s.triangles@[r.tid as int];
    &&& !t.deleted
    &&& t.v[((r.tvertex + 1) % 3) as int] != i1
    &&& t.v[((r.tvertex + 2) % 3) as int] != i1
}

/// Whether the survivor at window entry `k` of vertex `i0` fails a guard
/// test at the merge position `p`: its two edge directions from `p` become
/// nearly colinear, or its recomputed normal deviates too far from its
/// stored one.
pub open spec fn spec_flip_reject_at(s: Simplifier, p: Point3, i0: int, k: int) -> bool {
    let r = s.refs@[s.vertices@[i0].tstart + k];
    let t = s.triangles@[r.tid as int];
    let id1 = t.v[((r.tvertex + 1) % 3) as int];
    let id2 = t.v[((r.tvertex + 2) % 3) as int];
    let d1 = s.vertices@[id1 as int].p.spec_minus(p).spec_normalized();
    let d2 = s.vertices@[id2 as int].p.spec_minus(p).spec_normalized();
    ||| flt(F_COLINEAR, fabs(d1.spec_dot(d2)))
    ||| flt(d1.spec_cross(d2).spec_normalized().spec_dot(t.n), F_FLIP)
}

/// Whether the flip guard rejects collapsing `(i0, i1)` at position `p`:
/// some live triangle incident to `i0` that does not contain the edge
/// fails a guard test there.
pub open spec fn spec_flip_rejects(s: Simplifier, p: Point3, i0: int, i1: int) -> bool {
    exists|k: int|
        0 <= k < s.vertices@[i0].tcount && #[trigger] spec_guard_applies(s, i0, i1, k)
            && spec_flip_reject_at(s, p, i0, k)
}

/// The edge-collapse error policy of the quadric metric: with the combined
/// quadric of the two endpoints, either the closed-form minimizer (when the
/// 3×3 subdeterminant is clearly invertible and neither endpoint lies on a
/// border), or the best of the two endpoints and their midpoint, ties
/// preferring the first endpoint, then the second, then the midpoint.
pub open spec fn spec_calc_error(v1: Vertex, v2: Vertex) -> (u64, Point3) {
    let q = v1.q.spec_plus(v2.q);
    let border = v1.border || v2.border;
    let det = spec_det3(q.m@, 0, 1, 2, 1, 4, 5, 2, 5, 7);
    if flt(F_DET_EPS, fabs(det)) && !border {
        let p = Point3 {
            x: fmul(fdiv(F_NEG_ONE, det), spec_det3(q.m@, 1, 2, 3, 4, 5, 6, 5, 7, 8)),
            y: fmul(fdiv(F_ONE, det), spec_det3(q.m@, 0, 2, 3, 1, 5, 6, 2, 7, 8)),
            z: fmul(fdiv(F_NEG_ONE, det), spec_det3(q.m@, 0, 1, 3, 1, 4, 6, 2, 5, 8)),
        };
        (q.spec_error_at(p), p)
    } else {
        let p3 = v1.p.spec_midpoint(v2.p);
        let e1 = q.spec_error_at(v1.p);
        let e2 = q.spec_error_at(v2.p);
        let e3 = q.spec_error_at(p3);
        let error = fmin(e1, fmin(e2, e3));
        let p = if feq(error, e1) {
            v1.p
        } else if feq(error, e2) {
            v2.p
        } else {
            p3
        };
        (error, p)
    }
}

impl Simplifier {
    /// Every stored index stays inside the array it points into, and the
    /// triangle count is small enough that three references per triangle
    /// cannot overflow a `usize`.
    pub open spec fn wf(self) -> bool {
        &&& forall|i: int|
            0 <= i < self.triangles@.len() ==> tri_valid(
                #[trigger] self.triangles@[i],
                self.vertices@.len() as int,
            )
        &&& forall|i: int|
            0 <= i < self.refs@.len() ==> ((#[trigger] self.refs@[i]).tid < self.triangles@.len()
                && self.refs@[i].tvertex < 3)
        &&& forall|i: int|
            0 <= i < self.vertices@.len() ==> (#[trigger] self.vertices@[i]).tstart
                + self.vertices@[i].tcount <= self.refs@.len()
        &&& 3 * self.triangles@.len() <= usize::MAX
    }

    /// Build the working set from a mesh's raw arrays: one vertex record per
    /// position with a zero quadric, one triangle record per face with
    /// cleared tombstone and errors, and an empty reference table.
    pub fn new(input_vertices: &Vec<Point3>, input_faces: &Vec<(usize, usize, usize)>) -> (r:
        Simplifier)
        requires
            forall|i: int|
                0 <= i < input_faces@.len() ==> ((#[trigger] input_faces@[i]).0
                    < input_vertices@.len() && input_faces@[i].1 < input_vertices@.len()
                    && input_faces@[i].2 < input_vertices@.len()),
            3 * input_faces@.len() <= usize::MAX,
        ensures
            r.wf(),
            r.vertices@.len() == input_vertices@.len(),
            forall|i: int|
                0 <= i < r.vertices@.len() ==> {
                    let v = #[trigger] r.vertices@[i];
                    &&& v.p == input_vertices@[i]
                    &&& v.tstart == 0
                    &&& v.tcount == 0
                    &&& !v.border
                    &&& forall|j: int| 0 <= j < 10 ==> v.q.m[j] == F_ZERO
                },
            r.triangles@.len() == input_faces@.len(),
            forall|i: int|
                0 <= i < r.triangles@.len() ==> {
                    let t = #[trigger] r.triangles@[i];
                    &&& t.v[0] == input_faces@[i].0
                    &&& t.v[1] == input_faces@[i].1
                    &&& t.v[2] == input_faces@[i].2
                    &&& !t.deleted
                    &&& !t.dirty
                    &&& forall|j: int| 0 <= j < 4 ==> t.err[j] == F_ZERO
                    &&& t.n == (Point3 { x: F_ZERO, y: F_ZERO, z: F_ZERO })
                },
            r.refs@.len() == 0,
            live_count(r.triangles@) == input_faces@.len(),

    {
        let zero_q = SymmetricMatrix::new(F_ZERO);
        let zero_p = Point3 { x: F_ZERO, y: F_ZERO, z: F_ZERO };
        let mut vertices: Vec<Vertex> = Vec::new();
        let mut i: usize = 0;
        while i < input_vertices.len()
            invariant
                i <= input_vertices@.len(),
                vertices@.len() == i,
                forall|j: int| 0 <= j < 10 ==> #[trigger] zero_q.m[j] == F_ZERO,
                forall|k: int|
                    0 <= k < i ==> {
                        let v = #[trigger] vertices@[k];
                        &&& v.p == input_vertices@[k]
                        &&& v.tstart == 0
                        &&& v.tcount == 0
                        &&& !v.border
                        &&& forall|j: int| 0 <= j < 10 ==> v.q.m[j] == F_ZERO
                    },
            decreases input_vertices@.len() - i,
        {
            vertices.push(
                Vertex { p: input_vertices[i], tstart: 0, tcount: 0, q: zero_q, border: false },
            );
            proof {
                assert forall|j: int| #![trigger zero_q.m[j]]
                    0 <= j < 10 implies vertices@[vertices@.len() - 1].q.m[j] == F_ZERO by {
                    assert(zero_q.m[j] == F_ZERO);
                }
            }
            i = i + 1;
        }
        let mut triangles: Vec<Triangle> = Vec::new();
        let mut j: usize = 0;
        while j < input_faces.len()
            invariant
                j <= input_faces@.len(),
                triangles@.len() == j,
                zero_p == (Point3 { x: F_ZERO, y: F_ZERO, z: F_ZERO }),
                vertices@.len() == input_vertices@.len(),
                forall|k: int|
                    0 <= k < input_faces@.len() ==> ((#[trigger] input_faces@[k]).0
                        < input_vertices@.len() && input_faces@[k].1 < input_vertices@.len()
                        && input_faces@[k].2 < input_vertices@.len()),
                forall|k: int|
                    0 <= k < j ==> {
                        let t = #[trigger] triangles@[k];
                        &&& t.v[0] == input_faces@[k].0
                        &&& t.v[1] == input_faces@[k].1
                        &&& t.v[2] == input_faces@[k].2
                        &&& !t.deleted
                        &&& !t.dirty
                        &&& forall|j2: int| 0 <= j2 < 4 ==> t.err[j2] == F_ZERO
                        &&& t.n == zero_p
                    },
            decreases input_faces@.len() - j,
        {
            let f = input_faces[j];
            triangles.push(
                Triangle {
                    v: [f.0, f.1, f.2],
                    err: [F_ZERO, F_ZERO, F_ZERO, F_ZERO],
                    deleted: false,
                    dirty: false,
                    n: zero_p,
                },
            );
            j = j + 1;
        }
        let r = Simplifier { vertices, triangles, refs: Vec::new() };
        proof {
            lemma_live_count_all_live(r.triangles@);
            assert forall|i2: int| 0 <= i2 < r.triangles@.len() implies tri_valid(
                #[trigger] r.triangles@[i2],
                r.vertices@.len() as int,
            ) by {}
        }
        r
    }

    /// The quadratic form of `q` evaluated at `p`: the squared-distance
    /// error of placing a vertex with accumulated quadric `q` at `p`.
    pub fn vertex_error(&self, q: &SymmetricMatrix, p: &Point3) -> (r: u64)
        ensures
            r == q.spec_error_at(*p),
    {
        q.error_at(p)
    }

    /// The error and optimal merge position for collapsing the edge between
    /// the two vertex records, under the policy of `spec_calc_error`.
    pub fn calculate_error(&self, id_v1: usize, id_v2: usize) -> (r: (u64, Point3))
        requires
            id_v1 < self.vertices@.len(),
            id_v2 < self.vertices@.len(),
        ensures
            r == spec_calc_error(self.vertices@[id_v1 as int], self.vertices@[id_v2 as int]),
    {
        let v1 = &self.vertices[id_v1];
        let v2 = &self.vertices[id_v2];
        let q = v1.q.plus(&v2.q);
        let border = v1.border || v2.border;
        let det = q.det3(0, 1, 2, 1, 4, 5, 2, 5, 7);
        if lt_f(F_DET_EPS, abs_f(det)) && !border {
            let p = Point3 {
                x: mul_f(div_f(F_NEG_ONE, det), q.det3(1, 2, 3, 4, 5, 6, 5, 7, 8)),
                y: mul_f(div_f(F_ONE, det), q.det3(0, 2, 3, 1, 5, 6, 2, 7, 8)),
                z: mul_f(div_f(F_NEG_ONE, det), q.det3(0, 1, 3, 1, 4, 6, 2, 5, 8)),
            };
            let error = self.vertex_error(&q, &p);
            (error, p)
        } else {
            let p1 = v1.p;
            let p2 = v2.p;
            let p3 = p1.midpoint(&p2);
            let e1 = self.vertex_error(&q, &p1);
            let e2 = self.vertex_error(&q, &p2);
            let e3 = self.vertex_error(&q, &p3);
            let error = min_f(e1, min_f(e2, e3));
            let p = if eq_f(error, e1) {
                p1
            } else if eq_f(error, e2) {
                p2
            } else {
                p3
            };
            (error, p)
        }
    }

    /// Flip/degeneracy guard from endpoint `i0`'s perspective: walk every
    /// triangle still incident to `i0`; flag (in `del`) those containing the
    /// collapsing edge `(i0, i1)`, which are slated for deletion, and reject
    /// the collapse (return true) if any other incident triangle would
    /// become nearly colinear at the merge position `p` or would have its
    /// normal deviate too far from its current one.
    pub fn flipped(&self, p: &Point3, i0: usize, i1: usize, del: &mut Vec<bool>) -> (r: bool)
        requires
            self.wf(),
            i0 < self.vertices@.len(),
            i1 < self.vertices@.len(),
            old(del)@.len() >= self.vertices@[i0 as int].tcount,
            forall|k: int|
                0 <= k < self.vertices@[i0 as int].tcount ==> old(del)@[k] == false,
        ensures
            final(del)@.len() == old(del)@.len(),
            r == spec_flip_rejects(*self, *p, i0 as int, i1 as int),
            !r ==> forall|k: int|
                0 <= k < self.vertices@[i0 as int].tcount ==> final(del)@[k] == spec_edge_flag(
                    *self,
                    i0 as int,
                    i1 as int,
                    k,
                ),
    {
        let tstart = self.vertices[i0].tstart;
        let tcount = self.vertices[i0].tcount;
        assert(tstart + tcount <= self.refs.len());
        let mut k: usize = 0;
        while k < tcount
            invariant
                self.wf(),
                i0 < self.vertices@.len(),
                i1 < self.vertices@.len(),
                tstart == self.vertices@[i0 as int].tstart,
                tcount == self.vertices@[i0 as int].tcount,
                tstart + tcount <= self.refs.len(),
                del@.len() >= tcount,
                del@.len() == old(del)@.len(),
                k <= tcount,
                forall|k2: int|
                    0 <= k2 < k ==> del@[k2] == spec_edge_flag(*self, i0 as int, i1 as int, k2),
                forall|k2: int| k <= k2 < tcount ==> del@[k2] == false,
                forall|k2: int|
                    0 <= k2 < k ==> !(#[trigger] spec_guard_applies(*self, i0 as int, i1 as int, k2)
                        && spec_flip_reject_at(*self, *p, i0 as int, k2)),
            decreases tcount - k,
        {
            let r = self.refs[tstart + k];
            let t = &self.triangles[r.tid];
            if !t.deleted {
                let s = r.tvertex;
                let id1 = t.v[(s + 1) % 3];
                let id2 = t.v[(s + 2) % 3];
                if id1 == i1 || id2 == i1 {
                    // this triangle contains the collapsing edge; it will be
                    // deleted rather than checked for degeneration
                    del[k] = true;
                } else {
                    let d1 = self.vertices[id1].p.minus(p).normalized();
                    let d2 = self.vertices[id2].p.minus(p).normalized();
                    if lt_f(F_COLINEAR, abs_f(d1.dot(&d2))) {
                        proof {
                            assert(spec_guard_applies(*self, i0 as int, i1 as int, k as int)
                                && spec_flip_reject_at(*self, *p, i0 as int, k as int));
                        }
                        return true;
                    }
                    let n = d1.cross(&d2).normalized();
                    del[k] = false;
                    if lt_f(n.dot(&t.n), F_FLIP) {
                        proof {
                            assert(spec_guard_applies(*self, i0 as int, i1 as int, k as int)
                                && spec_flip_reject_at(*self, *p, i0 as int, k as int));
                        }
                        return true;
                    }
                }
            }
            k = k + 1;
        }
        false
    }

    /// Re-point every surviving triangle in `v_idx`'s window from its old
    /// corner to `i0`, mark the flagged ones deleted, recompute the updated
    /// triangles' edge errors, and record fresh reference entries for the
    /// survivors starting at `refs_append_start`; returns how many were
    /// recorded. Deletions and the live triangle count balance exactly.
    pub fn update_triangles(
        &mut self,
        i0: usize,
        v_idx: usize,
        deleted_flags: &Vec<bool>,
        deleted_triangles: &mut usize,
        refs_append_start: usize,
    ) -> (new_refs: usize)
        requires
            old(self).wf(),
            i0 < old(self).vertices@.len(),
            v_idx < old(self).vertices@.len(),
            deleted_flags@.len() >= old(self).vertices@[v_idx as int].tcount,
            refs_append_start <= old(self).refs@.len(),
            old(self).vertices@[v_idx as int].tstart + old(self).vertices@[v_idx as int].tcount
                <= refs_append_start,
            *old(deleted_triangles) + live_count(old(self).triangles@) <= usize::MAX,
        ensures
            final(self).wf(),
            final(self).vertices == old(self).vertices,
            final(self).triangles@.len() == old(self).triangles@.len(),
            final(self).refs@.len() >= old(self).refs@.len(),
            refs_append_start + new_refs <= final(self).refs.len(),
            forall|t: int|
                0 <= t < old(self).triangles@.len() && (#[trigger] old(
                    self,
                ).triangles@[t]).deleted ==> final(self).triangles@[t].deleted,
            forall|k: int|
                0 <= k < old(self).vertices@[v_idx as int].tcount && deleted_flags@[k]
                    ==> final(self).triangles@[(#[trigger] old(self).refs@[old(
                    self,
                ).vertices@[v_idx as int].tstart + k]).tid as int].deleted,
            // each surviving window triangle is re-pointed to the kept
            // vertex at its corner, marked dirty, and its edge errors are
            // recomputed from its updated corners
            forall|k: int|
                0 <= k < old(self).vertices@[v_idx as int].tcount && !deleted_flags@[k]
                    && !final(self).triangles@[(#[trigger] old(self).refs@[old(
                    self,
                ).vertices@[v_idx as int].tstart + k]).tid as int].deleted ==> {
                    let e = old(self).refs@[old(self).vertices@[v_idx as int].tstart + k];
                    let tn = final(self).triangles@[e.tid as int];
                    &&& tn.v[e.tvertex as int] == i0
                    &&& tn.dirty
                    &&& tn.err == spec_tri_errs(old(self).vertices@, tn.v)
                },
            // the appended reference entries all point at corners that now
            // hold the kept vertex
            forall|j: int|
                refs_append_start <= j < refs_append_start + new_refs ==> {
                    let e = #[trigger] final(self).refs@[j];
                    &&& e.tvertex < 3
                    &&& e.tid < final(self).triangles@.len()
                    &&& final(self).triangles@[e.tid as int].v[e.tvertex as int] == i0
                },
            forall|j: int|
                0 <= j < refs_append_start ==> final(self).refs@[j] == #[trigger] old(self).refs@[j],
            refs_append_start == old(self).refs@.len() ==> final(self).refs@.len()
                == refs_append_start + new_refs,
            *final(deleted_triangles) + live_count(final(self).triangles@) == *old(
                deleted_triangles,
            ) + live_count(old(self).triangles@),
            *final(deleted_triangles) >= *old(deleted_triangles),
            live_count(final(self).triangles@) <= live_count(old(self).triangles@),
    {
        proof {
            lemma_live_count_bounds(self.triangles@);
        }
        let mut dt: usize = *deleted_triangles;
        let mut new_refs_count: usize = 0;
        let tstart = self.vertices[v_idx].tstart;
        let tcount = self.vertices[v_idx].tcount;
        assert(tstart + tcount <= self.refs.len());
        let mut k: usize = 0;
        while k < tcount
            invariant
                self.wf(),
                self.vertices == old(self).vertices,
                i0 < self.vertices@.len(),
                v_idx < self.vertices@.len(),
                tstart == self.vertices@[v_idx as int].tstart,
                tcount == self.vertices@[v_idx as int].tcount,
                tstart + tcount <= self.refs.len(),
                tstart + tcount <= refs_append_start,
                deleted_flags@.len() >= tcount,
                self.triangles@.len() == old(self).triangles@.len(),
                self.refs@.len() >= old(self).refs@.len(),
                refs_append_start <= old(self).refs@.len(),
                refs_append_start + new_refs_count <= self.refs.len(),
                refs_append_start == old(self).refs@.len() ==> refs_append_start + new_refs_count
                    == self.refs@.len(),
                new_refs_count <= k,
                k <= tcount,
                forall|j: int|
                    0 <= j < refs_append_start ==> #[trigger] self.refs@[j] == old(self).refs@[j],
                forall|t: int|
                    0 <= t < old(self).triangles@.len() && (#[trigger] old(
                        self,
                    ).triangles@[t]).deleted ==> self.triangles@[t].deleted,
                forall|k2: int|
                    0 <= k2 < k && deleted_flags@[k2] ==> self.triangles@[(#[trigger] old(
                        self,
                    ).refs@[tstart + k2]).tid as int].deleted,
                forall|k2: int|
                    0 <= k2 < k && !deleted_flags@[k2] && !self.triangles@[(#[trigger] old(self).refs@[tstart + k2]).tid as int].deleted ==> {
                        let e = old(self).refs@[tstart + k2];
                        let tn = self.triangles@[e.tid as int];
                        &&& tn.v[e.tvertex as int] == i0
                        &&& tn.dirty
                        &&& tn.err == spec_tri_errs(old(self).vertices@, tn.v)
                    },
                forall|j2: int|
                    refs_append_start <= j2 < refs_append_start + new_refs_count ==> {
                        let e = #[trigger] self.refs@[j2];
                        &&& e.tvertex < 3
                        &&& e.tid < self.triangles@.len()
                        &&& self.triangles@[e.tid as int].v[e.tvertex as int] == i0
                    },
                dt + live_count(self.triangles@) == *old(deleted_triangles) + live_count(
                    old(self).triangles@,
                ),
                *old(deleted_triangles) + live_count(old(self).triangles@) <= usize::MAX,
                dt >= *old(deleted_triangles),
                live_count(self.triangles@) <= live_count(old(self).triangles@),
            decreases tcount - k,
        {
            let ghost tri_top = self.triangles@;
            let r = self.refs[tstart + k];
            proof {
                assert(self.refs@[tstart + k] == old(self).refs@[tstart + k]);
            }
            let tid = r.tid;
            if !self.triangles[tid].deleted {
                if deleted_flags[k] {
                    // this triangle contained the collapsed edge: tombstone it
                    let mut t = self.triangles[tid];
                    t.deleted = true;
                    proof {
                        lemma_live_count_update(self.triangles@, tid as int, t);
                        lemma_live_count_bounds(self.triangles@.update(tid as int, t));
                        assert(live_count(self.triangles@) >= 1);
                    }
                    self.triangles[tid] = t;
                    dt = dt + 1;
                } else {
                    // survivor: re-point its corner to the kept vertex and
                    // refresh its edge errors
                    let mut t = self.triangles[tid];
                    t.v[r.tvertex] = i0;
                    t.dirty = true;
                    proof {
                        lemma_live_count_update(self.triangles@, tid as int, t);
                    }
                    self.triangles[tid] = t;
                    let (e0, _) = self.calculate_error(
                        self.triangles[tid].v[0],
                        self.triangles[tid].v[1],
                    );
                    let (e1, _) = self.calculate_error(
                        self.triangles[tid].v[1],
                        self.triangles[tid].v[2],
                    );
                    let (e2, _) = self.calculate_error(
                        self.triangles[tid].v[2],
                        self.triangles[tid].v[0],
                    );
                    let mut t2 = self.triangles[tid];
                    t2.err = [e0, e1, e2, min_f(e0, min_f(e1, e2))];
                    proof {
                        lemma_live_count_update(self.triangles@, tid as int, t2);
                        assert(t2.err == spec_tri_errs(self.vertices@, t2.v));
                    }
                    self.triangles[tid] = t2;
                    if refs_append_start + new_refs_count < self.refs.len() {
                        self.refs[refs_append_start + new_refs_count] = r;
                    } else {
                        self.refs.push(r);
                    }
                    new_refs_count = new_refs_count + 1;
                }
            }
            proof {
                assert forall|t: int|
                    0 <= t < self.triangles@.len() && tri_top[t].deleted
                    implies #[trigger] self.triangles@[t].deleted by {}
                assert forall|k2: int|
                    0 <= k2 <= k && deleted_flags@[k2] implies self.triangles@[(#[trigger] old(
                    self,
                ).refs@[tstart + k2]).tid as int].deleted by {
                    assert(old(self).refs@[tstart + k2] == self.refs@[tstart + k2]);
                    let tid2 = old(self).refs@[tstart + k2].tid as int;
                    assert(tid2 < self.triangles@.len());
                    if k2 < k {
                        assert(tri_top[tid2].deleted);
                    }
                }
                assert forall|k2: int|
                    0 <= k2 <= k && !deleted_flags@[k2] && !self.triangles@[(#[trigger] old(
                    self,
                ).refs@[tstart + k2]).tid as int].deleted implies {
                    let e = old(self).refs@[tstart + k2];
                    let tn = self.triangles@[e.tid as int];
                    &&& tn.v[e.tvertex as int] == i0
                    &&& tn.dirty
                    &&& tn.err == spec_tri_errs(old(self).vertices@, tn.v)
                } by {
                    assert(old(self).refs@[tstart + k2] == self.refs@[tstart + k2]);
                    let e = old(self).refs@[tstart + k2];
                    let tid2 = e.tid as int;
                    assert(tid2 < self.triangles@.len());
                    if k2 < k && !tri_top[tid2].deleted {
                        assert(tri_top[tid2].v[e.tvertex as int] == i0 && tri_top[tid2].dirty
                            && tri_top[tid2].err == spec_tri_errs(
                            old(self).vertices@,
                            tri_top[tid2].v,
                        ));
                    }
                }
            }
            k = k + 1;
        }
        *deleted_triangles = dt;
        new_refs_count
    }

    /// Commit an edge collapse of `i1` into `i0`: move the kept vertex to
    /// the merge position, sum the quadrics, tombstone the triangles that
    /// contained the edge, re-point the survivors, and give the kept vertex
    /// a fresh window over the appended reference entries.
    ///
    /// Border vertices never merge with non-border vertices: every caller
    /// must show the two endpoints' border flags equal.
    pub fn collapse_edge(
        &mut self,
        i0: usize,
        i1: usize,
        p: Point3,
        deleted0: &Vec<bool>,
        deleted1: &Vec<bool>,
        deleted_triangles: &mut usize,
        tid: Ghost<usize>,
        j: Ghost<usize>,
        pass: Ghost<usize>,
        aggressiveness: Ghost<u64>,
        threshold: Ghost<u64>,
    )
        requires
            old(self).wf(),
            i0 < old(self).vertices@.len(),
            i1 < old(self).vertices@.len(),
            // the committed edge is a candidate of the scan: edge `j` of the
            // live, clean triangle `tid`, whose minimum error passed this
            // pass's threshold and whose own error lies below it
            threshold@ == spec_pass_threshold(pass@, aggressiveness@),
            tid@ < old(self).triangles@.len(),
            j@ < 3,
            !old(self).triangles@[tid@ as int].deleted,
            !old(self).triangles@[tid@ as int].dirty,
            !flt(threshold@, old(self).triangles@[tid@ as int].err[3]),
            flt(old(self).triangles@[tid@ as int].err[j@ as int], threshold@),
            i0 == old(self).triangles@[tid@ as int].v[j@ as int],
            i1 == old(self).triangles@[tid@ as int].v[((j@ + 1) % 3) as int],
            // border vertices never merge with non-border vertices
            old(self).vertices@[i0 as int].border == old(self).vertices@[i1 as int].border,
            // `p` is the optimal merge position of the error policy, and the
            // flip guard accepted it from both endpoints' perspectives
            p == spec_calc_error(
                old(self).vertices@[i0 as int],
                old(self).vertices@[i1 as int],
            ).1,
            !spec_flip_rejects(*old(self), p, i0 as int, i1 as int),
            !spec_flip_rejects(*old(self), p, i1 as int, i0 as int),
            deleted0@.len() >= old(self).vertices@[i0 as int].tcount,
            deleted1@.len() >= old(self).vertices@[i1 as int].tcount,
            *old(deleted_triangles) + live_count(old(self).triangles@) <= usize::MAX,
        ensures
            final(self).wf(),
            final(self).vertices@.len() == old(self).vertices@.len(),
            final(self).triangles@.len() == old(self).triangles@.len(),
            // the kept vertex moves to the merge position, absorbs the
            // removed vertex's quadric, and receives a fresh window over
            // exactly the appended reference entries; no other vertex moves
            forall|v: int|
                0 <= v < old(self).vertices@.len() && v != i0 ==> #[trigger] final(self).vertices@[v]
                    == old(self).vertices@[v],
            final(self).vertices@[i0 as int].p == p,
            final(self).vertices@[i0 as int].q == old(self).vertices@[i0 as int].q.spec_plus(
                old(self).vertices@[i1 as int].q,
            ),
            final(self).vertices@[i0 as int].border == old(self).vertices@[i0 as int].border,
            final(self).vertices@[i0 as int].tstart == old(self).refs@.len(),
            final(self).vertices@[i0 as int].tstart + final(self).vertices@[i0 as int].tcount
                == final(self).refs@.len(),
            forall|j2: int|
                0 <= j2 < old(self).refs@.len() ==> final(self).refs@[j2] == #[trigger] old(self).refs@[j2],
            *final(deleted_triangles) + live_count(final(self).triangles@) == *old(
                deleted_triangles,
            ) + live_count(old(self).triangles@),
            *final(deleted_triangles) >= *old(deleted_triangles),
            live_count(final(self).triangles@) <= live_count(old(self).triangles@),
            forall|t: int|
                0 <= t < old(self).triangles@.len() && (#[trigger] old(self).triangles@[t]).deleted
                    ==> final(self).triangles@[t].deleted,
            forall|k: int|
                0 <= k < old(self).vertices@[i0 as int].tcount && deleted0@[k] ==> final(self).triangles@[(#[trigger] old(self).refs@[old(self).vertices@[i0 as int].tstart
                    + k]).tid as int].deleted,
            forall|k: int|
                0 <= k < old(self).vertices@[i1 as int].tcount && deleted1@[k] ==> final(self).triangles@[(#[trigger] old(self).refs@[old(self).vertices@[i1 as int].tstart
                    + k]).tid as int].deleted,
    {
        let mut v0 = self.vertices[i0];
        v0.p = p;
        v0.q = v0.q.plus(&self.vertices[i1].q);
        self.vertices[i0] = v0;
        let ghost refs_pre = self.refs@;
        proof {
            assert(refs_pre == old(self).refs@);
        }
        let refs_append_start = self.refs.len();
        let c1 = self.update_triangles(i0, i0, deleted0, deleted_triangles, refs_append_start);
        let ghost refs_mid = self.refs@;
        let c2 = self.update_triangles(
            i0,
            i1,
            deleted1,
            deleted_triangles,
            refs_append_start + c1,
        );
        proof {
            assert forall|k: int|
                0 <= k < old(self).vertices@[i1 as int].tcount && deleted1@[k] implies self.triangles@[(#[trigger] old(self).refs@[old(self).vertices@[i1 as int].tstart + k]).tid as int].deleted by {
                let w = old(self).vertices@[i1 as int].tstart + k;
                assert(old(self).vertices@[i1 as int].tstart + old(self).vertices@[i1 as int].tcount
                    <= old(self).refs@.len());
                assert(0 <= w < refs_append_start);
                assert(refs_mid[w] == refs_pre[w]);
                assert(refs_mid[w] == old(self).refs@[w]);
            }
        }
        let mut v0b = self.vertices[i0];
        v0b.tstart = refs_append_start;
        v0b.tcount = c1 + c2;
        self.vertices[i0] = v0b;
    }

    /// The seeded per-edge error of quadric initialization: zero when the
    /// combined quadric is clearly invertible and neither endpoint lies on
    /// a border, otherwise the largest finite double, deferring the
    /// detailed evaluation to the main loop.
    pub open spec fn spec_seed_error(v0: Vertex, v1: Vertex) -> u64 {
        let q = v0.q.spec_plus(v1.q);
        let det = spec_det3(q.m@, 0, 1, 2, 1, 4, 5, 2, 5, 7);
        if flt(F_DET_EPS, fabs(det)) && !(v0.border || v1.border) {
            F_ZERO
        } else {
            F_MAX
        }
    }

    /// Compute the seeded error for the edge between two vertex records.
    fn seed_edge_error(&self, id0: usize, id1: usize) -> (r: u64)
        requires
            id0 < self.vertices@.len(),
            id1 < self.vertices@.len(),
        ensures
            r == Simplifier::spec_seed_error(
                self.vertices@[id0 as int],
                self.vertices@[id1 as int],
            ),
    {
        let v0 = &self.vertices[id0];
        let v1 = &self.vertices[id1];
        let q = v0.q.plus(&v1.q);
        let det = q.det3(0, 1, 2, 1, 4, 5, 2, 5, 7);
        let border = v0.border || v1.border;
        if lt_f(F_DET_EPS, abs_f(det)) && !border {
            F_ZERO
        } else {
            F_MAX
        }
    }

    /// Rebuild checkpoint: compact tombstoned triangles out of the array
    /// (after the first pass), recompute every vertex's window and the
    /// shared reference table from scratch, and on the very first pass also
    /// classify border vertices, initialize the vertex quadrics from the
    /// triangles' supporting planes, and seed the per-edge errors.
    pub fn update_mesh(&mut self, iteration: usize)
        requires
            old(self).wf(),
        ensures
            final(self).wf(),
            final(self).vertices@.len() == old(self).vertices@.len(),
            final(self).triangles@.len() <= old(self).triangles@.len(),
            live_count(final(self).triangles@) == live_count(old(self).triangles@),
            final(self).refs@.len() == 3 * live_count(final(self).triangles@),
            forall|k: int|
                0 <= k < final(self).vertices@.len() ==> (#[trigger] final(self).vertices@[k]).p
                    == old(self).vertices@[k].p,
            iteration > 0 ==> final(self).triangles@ == live_seq(old(self).triangles@),
            iteration > 0 ==> forall|k: int|
                0 <= k < final(self).vertices@.len() ==> ((#[trigger] final(self).vertices@[k]).q
                    == old(self).vertices@[k].q && final(self).vertices@[k].border == old(self).vertices@[k].border),
            iteration > 0 ==> forall|i: int|
                0 <= i < final(self).triangles@.len() ==> !(#[trigger] final(self).triangles@[i]).deleted,
            // the rebuilt windows hold only true incidences: each filled
            // entry names a live triangle holding that vertex at that corner
            windows_list_incidences(*final(self)),
            // and every incidence is listed: each window's size equals the
            // number of live corner occurrences of its vertex, and the
            // windows partition the table consecutively in vertex order
            forall|v: int|
                0 <= v < final(self).vertices@.len() ==> (#[trigger] final(self).vertices@[v]).tcount == occ_slots(
                    final(self).triangles@,
                    v,
                    3 * (final(self).triangles@.len() as int),
                ),
            forall|v: int|
                0 <= v < final(self).vertices@.len() ==> (#[trigger] final(self).vertices@[v]).tstart == sum_tcounts(final(self).vertices@, v),
            final(self).refs@.len() == sum_tcounts(
                final(self).vertices@,
                final(self).vertices@.len() as int,
            ),
            // on the first rebuild every vertex's quadric is the accumulated
            // supporting-plane quadric of the live triangles that hold it
            iteration == 0 ==> forall|k: int|
                0 <= k < final(self).vertices@.len() ==> (#[trigger] final(self).vertices@[k]).q
                    == spec_accumulated_quadric(
                    final(self).triangles@,
                    final(self).vertices@,
                    k,
                    final(self).triangles@.len() as int,
                ),
            // and every live triangle carries its unit normal and its
            // seeded per-edge errors
            iteration == 0 ==> forall|i: int|
                0 <= i < final(self).triangles@.len() && !(#[trigger] final(self).triangles@[i]).deleted ==> (final(self).triangles@[i].n == spec_face_unit_normal(
                    final(self).vertices@,
                    final(self).triangles@[i].v,
                ) && final(self).triangles@[i].err == spec_seed_errs(
                    final(self).vertices@,
                    final(self).triangles@[i].v,
                )),
    {
        let nv = self.vertices.len();
        // reset every vertex's window before the reference table is rebuilt
        let mut i: usize = 0;
        while i < nv
            invariant
                nv == self.vertices@.len(),
                i <= nv,
                self.triangles == old(self).triangles,
                forall|k: int|
                    0 <= k < i ==> (#[trigger] self.vertices@[k]).tstart == 0
                        && self.vertices@[k].tcount == 0,
                forall|k: int|
                    0 <= k < nv ==> {
                        let v = #[trigger] self.vertices@[k];
                        let o = old(self).vertices@[k];
                        v.p == o.p && v.q == o.q && v.border == o.border
                    },
            decreases nv - i,
        {
            let mut v = self.vertices[i];
            v.tstart = 0;
            v.tcount = 0;
            self.vertices[i] = v;
            i = i + 1;
        }
        // the old reference table is abandoned wholesale
        self.refs = Vec::new();
        proof {
            assert forall|k: int|
                0 <= k < self.triangles@.len() implies tri_valid(
                #[trigger] self.triangles@[k],
                nv as int,
            ) by {
                assert(self.triangles@[k] == old(self).triangles@[k]);
            }
        }
        if iteration > 0 {
            // compact: physically remove tombstoned triangles
            let kept = collect_live(&self.triangles, nv);
            proof {
                lemma_live_count_all_live(kept@);
                lemma_live_count_bounds(self.triangles@);
            }
            self.triangles = kept;
        }
        let nt = self.triangles.len();
        let ghost tri_snap = self.triangles@;
        proof {
            lemma_live_count_bounds(tri_snap);
            assert(live_count(tri_snap) == live_count(old(self).triangles@));
            assert(nt <= old(self).triangles@.len());
            if iteration > 0 {
                assert(tri_snap == live_seq(old(self).triangles@));
            }
        }
        let ghost verts_snap = self.vertices@;
        // count, per vertex, how many corners of live triangles it occupies
        let mut counts: Vec<usize> = Vec::new();
        let mut i2: usize = 0;
        while i2 < nv
            invariant
                i2 <= nv,
                counts@.len() == i2,
                forall|k: int| 0 <= k < i2 ==> counts@[k] == 0,
            decreases nv - i2,
        {
            counts.push(0);
            i2 = i2 + 1;
        }
        proof {
            lemma_sum_zero_counts(counts@);
            assert(self.triangles@.take(0) =~= Seq::<Triangle>::empty());
        }
        let mut tid: usize = 0;
        while tid < nt
            invariant
                nt == self.triangles@.len(),
                nv == self.vertices@.len(),
                tid <= nt,
                counts@.len() == nv,
                3 * nt <= usize::MAX,
                self.triangles@ == tri_snap,
                forall|k: int|
                    0 <= k < nt ==> tri_valid(#[trigger] self.triangles@[k], nv as int),
                forall|k: int| 0 <= k < nv ==> #[trigger] counts@[k] <= 3 * tid,
                forall|k: int|
                    0 <= k < nv ==> #[trigger] counts@[k] == occ_slots(tri_snap, k, 3 * tid),
                sum_usize(counts@) == 3 * live_count(self.triangles@.take(tid as int)),
                sum_usize(counts@) <= 3 * tid,
            decreases nt - tid,
        {
            proof {
                lemma_live_count_take_step(self.triangles@, tid as int);
                lemma_live_count_bounds(self.triangles@.take(tid as int));
                lemma_live_count_bounds(self.triangles@.take(tid + 1));
            }
            let t = self.triangles[tid];
            if !t.deleted {
                proof {
                    lemma_sum_update(counts@, t.v[0] as int, (counts@[t.v[0] as int] + 1) as usize);
                    assert forall|k: int|
                        0 <= k < nv implies occ_slots(tri_snap, k, 3 * tid + 1) == counts@[k] + (
                        if k == t.v[0] {
                            1int
                        } else {
                            0int
                        }) by {
                        assert((3 * (tid as int)) / 3 == tid as int && (3 * (tid as int)) % 3
                            == 0) by (nonlinear_arith);
                        lemma_occ_step(tri_snap, k, 3 * tid);
                    }
                }
                counts[t.v[0]] = counts[t.v[0]] + 1;
                proof {
                    lemma_sum_update(counts@, t.v[1] as int, (counts@[t.v[1] as int] + 1) as usize);
                    assert forall|k: int|
                        0 <= k < nv implies occ_slots(tri_snap, k, 3 * tid + 2) == counts@[k] + (
                        if k == t.v[1] {
                            1int
                        } else {
                            0int
                        }) by {
                        assert((3 * (tid as int) + 1) / 3 == tid as int && (3 * (tid as int) + 1)
                            % 3 == 1) by (nonlinear_arith);
                        lemma_occ_step(tri_snap, k, 3 * tid + 1);
                    }
                }
                counts[t.v[1]] = counts[t.v[1]] + 1;
                proof {
                    lemma_sum_update(counts@, t.v[2] as int, (counts@[t.v[2] as int] + 1) as usize);
                    assert forall|k: int|
                        0 <= k < nv implies occ_slots(tri_snap, k, 3 * tid + 3) == counts@[k] + (
                        if k == t.v[2] {
                            1int
                        } else {
                            0int
                        }) by {
                        assert((3 * (tid as int) + 2) / 3 == tid as int && (3 * (tid as int) + 2)
                            % 3 == 2) by (nonlinear_arith);
                        lemma_occ_step(tri_snap, k, 3 * tid + 2);
                    }
                }
                counts[t.v[2]] = counts[t.v[2]] + 1;
            } else {
                proof {
                    assert forall|k: int|
                        0 <= k < nv implies occ_slots(tri_snap, k, 3 * (tid + 1)) == counts@[k] by {
                        assert((3 * (tid as int)) / 3 == tid as int && (3 * (tid as int)) % 3 == 0
                            && (3 * (tid as int) + 1) / 3 == tid as int && (3 * (tid as int) + 1)
                            % 3 == 1 && (3 * (tid as int) + 2) / 3 == tid as int && (3 * (
                        tid as int) + 2) % 3 == 2) by (nonlinear_arith);
                        lemma_occ_step(tri_snap, k, 3 * tid);
                        lemma_occ_step(tri_snap, k, 3 * tid + 1);
                        lemma_occ_step(tri_snap, k, 3 * tid + 2);
                    }
                }
            }
            tid = tid + 1;
        }
        proof {
            assert(self.triangles@.take(nt as int) =~= self.triangles@);
            assert(sum_usize(counts@) == 3 * live_count(tri_snap));
        }
        // cumulative windows: each vertex's window starts where the
        // previous one ends
        let mut cum: usize = 0;
        let mut i3: usize = 0;
        while i3 < nv
            invariant
                nv == self.vertices@.len(),
                i3 <= nv,
                counts@.len() == nv,
                sum_usize(counts@) <= 3 * nt,
                3 * nt <= usize::MAX,
                cum == sum_usize(counts@.take(i3 as int)),
                self.triangles@ == tri_snap,
                self.refs@.len() == 0,
                nt == self.triangles@.len(),
                forall|k: int|
                    0 <= k < nt ==> tri_valid(#[trigger] self.triangles@[k], nv as int),
                forall|k: int|
                    0 <= k < i3 ==> (#[trigger] self.vertices@[k]).tstart <= sum_usize(counts@)
                        && self.vertices@[k].tstart == sum_usize(counts@.take(k))
                        && self.vertices@[k].tcount == 0,
                forall|k: int| i3 <= k < nv ==> (#[trigger] self.vertices@[k]).tcount == 0,
                forall|k: int|
                    0 <= k < nv ==> {
                        let v = #[trigger] self.vertices@[k];
                        let o = old(self).vertices@[k];
                        v.p == o.p && v.q == o.q && v.border == o.border
                    },
            decreases nv - i3,
        {
            proof {
                lemma_sum_take_step(counts@, i3 as int);
                lemma_sum_take_le(counts@, i3 as int);
                lemma_sum_take_le(counts@, i3 as int + 1);
            }
            let mut v = self.vertices[i3];
            v.tstart = cum;
            self.vertices[i3] = v;
            cum = cum + counts[i3];
            i3 = i3 + 1;
        }
        proof {
            assert(counts@.take(nv as int) =~= counts@);
            lemma_sum_nonneg(counts@);
        }
        // preallocate the reference table; a non-empty table implies at
        // least one live triangle, so the placeholder id is in range
        if cum > 0 {
            let mut j2: usize = 0;
            let mut fresh: Vec<TriRef> = Vec::new();
            while j2 < cum
                invariant
                    j2 <= cum,
                    fresh@.len() == j2,
                    forall|k: int|
                        0 <= k < j2 ==> (#[trigger] fresh@[k]).tid == 0 && fresh@[k].tvertex == 0,
                decreases cum - j2,
            {
                fresh.push(TriRef { tid: 0, tvertex: 0 });
                j2 = j2 + 1;
            }
            self.refs = fresh;
        }
        assert(self.refs@.len() == cum);
        assert(cum > 0 ==> nt > 0);
        // fill the table: each live triangle contributes one entry per
        // corner, placed at its vertex's next free window slot
        let mut tid2: usize = 0;
        while tid2 < nt
            invariant
                nt == self.triangles@.len(),
                nv == self.vertices@.len(),
                tid2 <= nt,
                3 * nt <= usize::MAX,
                self.refs@.len() == cum,
                self.triangles@ == tri_snap,
                forall|k: int|
                    0 <= k < nt ==> tri_valid(#[trigger] self.triangles@[k], nv as int),
                forall|k: int|
                    0 <= k < self.refs@.len() ==> ((#[trigger] self.refs@[k]).tid
                        < self.triangles@.len() && self.refs@[k].tvertex < 3),
                forall|k: int|
                    0 <= k < nv ==> (#[trigger] self.vertices@[k]).tstart + self.vertices@[k].tcount
                        <= self.refs.len(),
                counts@.len() == nv,
                cum == sum_usize(counts@),
                windows_at_prefix_sums(self.vertices@, counts@),
                windows_list_incidences(*self),
                forall|k: int|
                    0 <= k < nv ==> #[trigger] counts@[k] == occ_slots(tri_snap, k, 3 * nt),
                forall|k: int|
                    0 <= k < nv ==> (#[trigger] self.vertices@[k]).tcount == occ_slots(
                        tri_snap,
                        k,
                        3 * tid2,
                    ),
                forall|k: int|
                    0 <= k < nv ==> {
                        let v = #[trigger] self.vertices@[k];
                        let o = old(self).vertices@[k];
                        v.p == o.p && v.q == o.q && v.border == o.border
                    },
            decreases nt - tid2,
        {
            let t = self.triangles[tid2];
            if !t.deleted {
                proof {
                    assert((3 * (tid2 as int)) / 3 == tid2 as int && (3 * (tid2 as int)) % 3 == 0
                        && (3 * (tid2 as int) + 1) / 3 == tid2 as int && (3 * (tid2 as int) + 1)
                        % 3 == 1 && (3 * (tid2 as int) + 2) / 3 == tid2 as int && (3 * (
                    tid2 as int) + 2) % 3 == 2) by (nonlinear_arith);
                    lemma_occ_step(tri_snap, t.v[0] as int, 3 * tid2);
                    lemma_occ_bounds(tri_snap, t.v[0] as int, 3 * tid2 + 1, 3 * nt);
                }
                self.fill_ref_slot(t.v[0], tid2, 0, &counts);
                proof {
                    assert forall|k2: int|
                        0 <= k2 < nv implies (#[trigger] self.vertices@[k2]).tcount == occ_slots(
                        tri_snap,
                        k2,
                        3 * tid2 + 1,
                    ) by {
                        lemma_occ_step(tri_snap, k2, 3 * tid2);
                    }
                    lemma_occ_step(tri_snap, t.v[1] as int, 3 * tid2 + 1);
                    lemma_occ_bounds(tri_snap, t.v[1] as int, 3 * tid2 + 2, 3 * nt);
                }
                self.fill_ref_slot(t.v[1], tid2, 1, &counts);
                proof {
                    assert forall|k2: int|
                        0 <= k2 < nv implies (#[trigger] self.vertices@[k2]).tcount == occ_slots(
                        tri_snap,
                        k2,
                        3 * tid2 + 2,
                    ) by {
                        lemma_occ_step(tri_snap, k2, 3 * tid2 + 1);
                    }
                    lemma_occ_step(tri_snap, t.v[2] as int, 3 * tid2 + 2);
                    lemma_occ_bounds(tri_snap, t.v[2] as int, 3 * tid2 + 3, 3 * nt);
                }
                self.fill_ref_slot(t.v[2], tid2, 2, &counts);
                proof {
                    assert forall|k2: int|
                        0 <= k2 < nv implies (#[trigger] self.vertices@[k2]).tcount == occ_slots(
                        tri_snap,
                        k2,
                        3 * (tid2 + 1),
                    ) by {
                        lemma_occ_step(tri_snap, k2, 3 * tid2 + 2);
                    }
                }
            } else {
                proof {
                    assert((3 * (tid2 as int)) / 3 == tid2 as int && (3 * (tid2 as int)) % 3 == 0
                        && (3 * (tid2 as int) + 1) / 3 == tid2 as int && (3 * (tid2 as int) + 1)
                        % 3 == 1 && (3 * (tid2 as int) + 2) / 3 == tid2 as int && (3 * (
                    tid2 as int) + 2) % 3 == 2) by (nonlinear_arith);
                    assert forall|k2: int|
                        0 <= k2 < nv implies (#[trigger] self.vertices@[k2]).tcount == occ_slots(
                        tri_snap,
                        k2,
                        3 * (tid2 + 1),
                    ) by {
                        lemma_occ_step(tri_snap, k2, 3 * tid2);
                        lemma_occ_step(tri_snap, k2, 3 * tid2 + 1);
                        lemma_occ_step(tri_snap, k2, 3 * tid2 + 2);
                    }
                }
            }
            tid2 = tid2 + 1;
        }
        proof {
            lemma_live_count_bounds(self.triangles@);
        }
        if iteration == 0 {
            let ghost before_classify = *self;
            self.classify_borders();
            proof {
                lemma_windows_incidences_preserved(before_classify, *self);
            }
            let ghost before_init = *self;
            self.init_quadrics();
            proof {
                lemma_windows_incidences_preserved(before_init, *self);
            }
            let ghost before_seed = *self;
            self.seed_errors();
            proof {
                lemma_windows_incidences_preserved(before_seed, *self);
                // the accumulated quadric reads only corners, tombstones and
                // positions, all preserved since initialization
                assert forall|k2: int|
                    0 <= k2 < nv implies (#[trigger] self.vertices@[k2]).q
                    == spec_accumulated_quadric(
                    self.triangles@,
                    self.vertices@,
                    k2,
                    self.triangles@.len() as int,
                ) by {
                    lemma_accumulated_quadric_congruent(
                        before_init.triangles@,
                        self.triangles@,
                        before_init.vertices@,
                        self.vertices@,
                        k2,
                        self.triangles@.len() as int,
                    );
                }
            }
        }
        proof {
            // bridge the census from the fill-time snapshot to the final
            // state: only normals, errors, borders and quadrics changed
            assert forall|v: int|
                0 <= v < nv implies (#[trigger] self.vertices@[v]).tcount == occ_slots(
                self.triangles@,
                v,
                3 * (self.triangles@.len() as int),
            ) by {
                lemma_occ_congruent(tri_snap, self.triangles@, v, 3 * nt);
            }
            assert forall|v: int|
                0 <= v < nv implies (#[trigger] self.vertices@[v]).tstart == sum_tcounts(
                self.vertices@,
                v,
            ) by {
                lemma_sum_tcounts_eq(self.vertices@, counts@, v);
            }
            lemma_sum_tcounts_eq(self.vertices@, counts@, nv as int);
            assert(counts@.take(nv as int) =~= counts@);
        }
    }

    /// Record that triangle `tid` holds vertex `v_idx` at corner `tvertex`,
    /// at the vertex's next free window slot; a slot beyond the table (which
    /// a consistent rebuild never produces) is skipped.
    fn fill_ref_slot(&mut self, v_idx: usize, tid: usize, tvertex: usize, counts: &Vec<usize>)
        requires
            v_idx < old(self).vertices@.len(),
            tid < old(self).triangles@.len(),
            tvertex < 3,
            !old(self).triangles@[tid as int].deleted,
            old(self).triangles@[tid as int].v[tvertex as int] == v_idx,
            windows_at_prefix_sums(old(self).vertices@, counts@),
            windows_list_incidences(*old(self)),
            old(self).vertices@[v_idx as int].tcount < counts@[v_idx as int],
            sum_usize(counts@) <= old(self).refs.len(),
            forall|k: int|
                0 <= k < old(self).vertices@.len() ==> (#[trigger] old(self).vertices@[k]).tstart
                    + old(self).vertices@[k].tcount <= old(self).refs.len(),
        ensures
            final(self).triangles == old(self).triangles,
            final(self).refs@.len() == old(self).refs@.len(),
            final(self).vertices@.len() == old(self).vertices@.len(),
            windows_at_prefix_sums(final(self).vertices@, counts@),
            windows_list_incidences(*final(self)),
            final(self).vertices@[v_idx as int].tcount == old(self).vertices@[v_idx as int].tcount
                + 1,
            forall|k: int|
                0 <= k < final(self).vertices@.len() && k != v_idx ==> #[trigger] final(self).vertices@[k] == old(self).vertices@[k],
            forall|k: int|
                0 <= k < final(self).refs@.len() ==> #[trigger] final(self).refs@[k]
                    == old(self).refs@[k] || (final(self).refs@[k].tid == tid && final(self).refs@[k].tvertex == tvertex),
            forall|k: int|
                0 <= k < final(self).vertices@.len() ==> (#[trigger] final(self).vertices@[k]).tstart
                    + final(self).vertices@[k].tcount <= final(self).refs.len(),
            forall|k: int|
                0 <= k < final(self).vertices@.len() ==> {
                    let v = #[trigger] final(self).vertices@[k];
                    let o = old(self).vertices@[k];
                    v.p == o.p && v.q == o.q && v.border == o.border && v.tstart == o.tstart
                },
        {
        let v = self.vertices[v_idx];
        let ref_index = v.tstart + v.tcount;
        proof {
            // the next free slot lies inside this vertex's own capacity
            // region, which the table wholly contains
            lemma_sum_take_step(counts@, v_idx as int);
            lemma_sum_take_le(counts@, v_idx as int + 1);
            assert(ref_index < self.refs.len());
        }
        if ref_index < self.refs.len() {
            self.refs[ref_index] = TriRef { tid, tvertex };
            let mut v2 = self.vertices[v_idx];
            v2.tcount = v2.tcount + 1;
            self.vertices[v_idx] = v2;
            proof {
                // the write landed inside this vertex's own region, past
                // every other vertex's filled prefix, so their entries and
                // their claims are untouched
                assert forall|w: int, k: int|
                    #![trigger self.refs@[self.vertices@[w].tstart + k]]
                    0 <= w < self.vertices@.len() && 0 <= k < self.vertices@[w].tcount implies {
                    let e = self.refs@[self.vertices@[w].tstart + k];
                    &&& e.tid < self.triangles@.len()
                    &&& e.tvertex < 3
                    &&& !self.triangles@[e.tid as int].deleted
                    &&& self.triangles@[e.tid as int].v[e.tvertex as int] == w
                } by {
                    let wstart = self.vertices@[w].tstart as int;
                    if w == v_idx && k == v.tcount {
                        assert(self.refs@[wstart + k] == (TriRef { tid, tvertex }));
                    } else {
                        if w < v_idx {
                            lemma_sum_take_step(counts@, w);
                            lemma_sum_take_mono(counts@, w + 1, v_idx as int);
                            assert(wstart + k < sum_usize(counts@.take(w + 1)));
                            assert(wstart + k < ref_index);
                        } else if w > v_idx {
                            lemma_sum_take_step(counts@, v_idx as int);
                            lemma_sum_take_mono(counts@, v_idx as int + 1, w);
                            assert(ref_index < wstart + k || ref_index < wstart);
                            assert(wstart + k != ref_index);
                        } else {
                            assert(wstart + k < ref_index);
                        }
                        assert(self.refs@[wstart + k] == old(self).refs@[wstart + k]);
                        assert(old(self).refs@[old(self).vertices@[w].tstart + k] == self.refs@[
                            wstart + k
                        ]);
                    }
                }
            }
        }
    }

    /// Set one vertex's border flag, leaving everything else in place.
    fn mark_border(&mut self, idx: usize)
        requires
            old(self).wf(),
            idx < old(self).vertices@.len(),
        ensures
            final(self).wf(),
            final(self).triangles == old(self).triangles,
            final(self).refs == old(self).refs,
            final(self).vertices@.len() == old(self).vertices@.len(),
            final(self).vertices@[idx as int].border,
            forall|k: int|
                0 <= k < final(self).vertices@.len() ==> {
                    let v = #[trigger] final(self).vertices@[k];
                    let o = old(self).vertices@[k];
                    v.tstart == o.tstart && v.tcount == o.tcount && v.p == o.p && v.q == o.q && (k
                        != idx ==> v.border == o.border)
                },
    {
        let mut v = self.vertices[idx];
        v.border = true;
        self.vertices[idx] = v;
    }

    /// Border classification for one vertex: count, over the live triangles
    /// of its window, how many contain each incident undirected edge, and
    /// mark both endpoints of every edge seen exactly once. Counters are
    /// capped at two, since only "exactly once" matters.
    fn classify_vertex_borders(&mut self, v_idx: usize)
        requires
            old(self).wf(),
            v_idx < old(self).vertices@.len(),
        ensures
            final(self).wf(),
            final(self).triangles == old(self).triangles,
            final(self).refs == old(self).refs,
            final(self).vertices@.len() == old(self).vertices@.len(),
            forall|k: int|
                0 <= k < final(self).vertices@.len() ==> {
                    let v = #[trigger] final(self).vertices@[k];
                    let o = old(self).vertices@[k];
                    v.tstart == o.tstart && v.tcount == o.tcount && v.p == o.p && v.q == o.q && (
                    o.border ==> v.border)
                },
    {
        let tstart = self.vertices[v_idx].tstart;
        let tcount = self.vertices[v_idx].tcount;
        assert(tstart + tcount <= self.refs.len());
        let mut edges: HashMap<usize, usize> = HashMap::new();
        let mut k: usize = 0;
        while k < tcount
            invariant
                self.wf(),
                v_idx < self.vertices@.len(),
                self == old(self),
                tstart + tcount <= self.refs.len(),
                tstart == self.vertices@[v_idx as int].tstart,
                tcount == self.vertices@[v_idx as int].tcount,
                k <= tcount,
                forall|key: usize| edges@.contains_key(key) ==> #[trigger] edges@[key] <= 2,
            decreases tcount - k,
        {
            let r = self.refs[tstart + k];
            let t = self.triangles[r.tid];
            if !t.deleted {
                bump_edge_count(&mut edges, t.v[0], t.v[1], v_idx);
                bump_edge_count(&mut edges, t.v[1], t.v[2], v_idx);
                bump_edge_count(&mut edges, t.v[2], t.v[0], v_idx);
            }
            k = k + 1;
        }
        // an incident edge held by exactly one triangle is a boundary edge:
        // both its endpoints become border vertices
        let mut k2: usize = 0;
        while k2 < tcount
            invariant
                self.wf(),
                v_idx < self.vertices@.len(),
                self.triangles == old(self).triangles,
                self.refs == old(self).refs,
                self.vertices@.len() == old(self).vertices@.len(),
                tstart + tcount <= self.refs.len(),
                tstart == self.vertices@[v_idx as int].tstart,
                tcount == self.vertices@[v_idx as int].tcount,
                k2 <= tcount,
                forall|k3: int|
                    0 <= k3 < self.vertices@.len() ==> {
                        let v = #[trigger] self.vertices@[k3];
                        let o = old(self).vertices@[k3];
                        v.tstart == o.tstart && v.tcount == o.tcount && v.p == o.p && v.q == o.q
                            && (o.border ==> v.border)
                    },
            decreases tcount - k2,
        {
            let r = self.refs[tstart + k2];
            let t = self.triangles[r.tid];
            if !t.deleted {
                self.mark_boundary_edge(&edges, t.v[0], t.v[1], v_idx);
                self.mark_boundary_edge(&edges, t.v[1], t.v[2], v_idx);
                self.mark_boundary_edge(&edges, t.v[2], t.v[0], v_idx);
            }
            k2 = k2 + 1;
        }
    }

    /// If the directed edge `(v0t, v1t)` touches `v_idx` and its neighbor's
    /// counter says the undirected edge was seen exactly once, mark both
    /// `v_idx` and the neighbor as border vertices.
    fn mark_boundary_edge(
        &mut self,
        edges: &HashMap<usize, usize>,
        v0t: usize,
        v1t: usize,
        v_idx: usize,
    )
        requires
            old(self).wf(),
            v_idx < old(self).vertices@.len(),
        ensures
            final(self).wf(),
            final(self).triangles == old(self).triangles,
            final(self).refs == old(self).refs,
            final(self).vertices@.len() == old(self).vertices@.len(),
            forall|k: int|
                0 <= k < final(self).vertices@.len() ==> {
                    let v = #[trigger] final(self).vertices@[k];
                    let o = old(self).vertices@[k];
                    v.tstart == o.tstart && v.tcount == o.tcount && v.p == o.p && v.q == o.q && (
                    o.border ==> v.border)
                },
    {
        if v0t == v_idx || v1t == v_idx {
            let neighbor = if v0t == v_idx {
                v1t
            } else {
                v0t
            };
            if neighbor != v_idx {
                let hit = match edges.get(&neighbor) {
                    Some(c) => *c == 1,
                    None => false,
                };
                if hit && neighbor < self.vertices.len() {
                    self.mark_border(v_idx);
                    self.mark_border(neighbor);
                }
            }
        }
    }

    /// Border classification over every vertex, performed exactly once,
    /// during the first rebuild.
    fn classify_borders(&mut self)
        requires
            old(self).wf(),
        ensures
            final(self).wf(),
            final(self).triangles == old(self).triangles,
            final(self).refs == old(self).refs,
            final(self).vertices@.len() == old(self).vertices@.len(),
            forall|k: int|
                0 <= k < final(self).vertices@.len() ==> {
                    let v = #[trigger] final(self).vertices@[k];
                    let o = old(self).vertices@[k];
                    v.p == o.p && v.q == o.q && v.tstart == o.tstart && v.tcount == o.tcount && (
                    o.border ==> v.border)
                },
    {
        let nv = self.vertices.len();
        let mut v_idx: usize = 0;
        while v_idx < nv
            invariant
                self.wf(),
                nv == self.vertices@.len(),
                v_idx <= nv,
                self.triangles == old(self).triangles,
                self.refs == old(self).refs,
                forall|k: int|
                    0 <= k < nv ==> {
                        let v = #[trigger] self.vertices@[k];
                        let o = old(self).vertices@[k];
                        v.p == o.p && v.q == o.q && v.tstart == o.tstart && v.tcount == o.tcount
                            && (o.border ==> v.border)
                    },
            decreases nv - v_idx,
        {
            self.classify_vertex_borders(v_idx);
            v_idx = v_idx + 1;
        }
    }

    /// Accumulate one plane quadric into a vertex.
    fn accumulate_quadric(&mut self, idx: usize, pq: &SymmetricMatrix)
        requires
            old(self).wf(),
            idx < old(self).vertices@.len(),
        ensures
            final(self).wf(),
            final(self).triangles == old(self).triangles,
            final(self).refs == old(self).refs,
            final(self).vertices@.len() == old(self).vertices@.len(),
            forall|k: int|
                0 <= k < final(self).vertices@.len() && k != idx ==> #[trigger] final(self).vertices@[k] == old(self).vertices@[k],
            final(self).vertices@[idx as int].q == old(self).vertices@[idx as int].q.spec_plus(
                *pq,
            ),
            forall|k: int|
                0 <= k < final(self).vertices@.len() ==> {
                    let v = #[trigger] final(self).vertices@[k];
                    let o = old(self).vertices@[k];
                    v.p == o.p && v.border == o.border && v.tstart == o.tstart && v.tcount
                        == o.tcount
                },
    {
        let mut v = self.vertices[idx];
        v.q = v.q.plus(pq);
        self.vertices[idx] = v;
    }

    /// Quadric initialization, performed exactly once, during the first
    /// rebuild: zero every vertex quadric, then for every live triangle
    /// compute its unit normal and plane offset and accumulate the plane's
    /// quadric into its three corners.
    fn init_quadrics(&mut self)
        requires
            old(self).wf(),
        ensures
            final(self).wf(),
            final(self).refs == old(self).refs,
            final(self).vertices@.len() == old(self).vertices@.len(),
            final(self).triangles@.len() == old(self).triangles@.len(),
            live_count(final(self).triangles@) == live_count(old(self).triangles@),
            forall|i: int|
                0 <= i < final(self).triangles@.len() ==> ((#[trigger] final(self).triangles@[i]).v == old(self).triangles@[i].v && final(self).triangles@[i].deleted
                    == old(self).triangles@[i].deleted),
            forall|i: int|
                0 <= i < final(self).triangles@.len() && !(#[trigger] final(self).triangles@[i]).deleted ==> final(self).triangles@[i].n == spec_face_unit_normal(
                    old(self).vertices@,
                    final(self).triangles@[i].v,
                ),
            forall|k: int|
                0 <= k < final(self).vertices@.len() ==> (#[trigger] final(self).vertices@[k]).q
                    == spec_accumulated_quadric(
                    old(self).triangles@,
                    old(self).vertices@,
                    k,
                    old(self).triangles@.len() as int,
                ),
            forall|k: int|
                0 <= k < final(self).vertices@.len() ==> {
                    let v = #[trigger] final(self).vertices@[k];
                    let o = old(self).vertices@[k];
                    v.p == o.p && v.border == o.border && v.tstart == o.tstart && v.tcount
                        == o.tcount
                },
    {
        let nv = self.vertices.len();
        let zero_q = SymmetricMatrix {
            m: [F_ZERO, F_ZERO, F_ZERO, F_ZERO, F_ZERO, F_ZERO, F_ZERO, F_ZERO, F_ZERO, F_ZERO],
        };
        let mut i: usize = 0;
        while i < nv
            invariant
                self.wf(),
                nv == self.vertices@.len(),
                i <= nv,
                self.triangles == old(self).triangles,
                self.refs == old(self).refs,
                zero_q == zero_quadric(),
                forall|k: int| 0 <= k < i ==> (#[trigger] self.vertices@[k]).q == zero_quadric(),
                forall|k: int|
                    0 <= k < nv ==> {
                        let v = #[trigger] self.vertices@[k];
                        let o = old(self).vertices@[k];
                        v.p == o.p && v.border == o.border && v.tstart == o.tstart && v.tcount
                            == o.tcount
                    },
            decreases nv - i,
        {
            let mut v = self.vertices[i];
            v.q = zero_q;
            self.vertices[i] = v;
            i = i + 1;
        }
        let nt = self.triangles.len();
        let mut tid: usize = 0;
        while tid < nt
            invariant
                self.wf(),
                nv == self.vertices@.len(),
                nt == self.triangles@.len(),
                tid <= nt,
                self.refs == old(self).refs,
                live_count(self.triangles@) == live_count(old(self).triangles@),
                forall|k: int|
                    0 <= k < nt ==> ((#[trigger] self.triangles@[k]).v == old(self).triangles@[k].v && self.triangles@[k].deleted == old(self).triangles@[k].deleted),
                forall|k: int|
                    0 <= k < tid && !(#[trigger] self.triangles@[k]).deleted
                        ==> self.triangles@[k].n == spec_face_unit_normal(
                        old(self).vertices@,
                        self.triangles@[k].v,
                    ),
                forall|k: int|
                    0 <= k < nv ==> (#[trigger] self.vertices@[k]).q == spec_accumulated_quadric(
                        old(self).triangles@,
                        old(self).vertices@,
                        k,
                        tid as int,
                    ),
                forall|k: int|
                    0 <= k < nv ==> {
                        let v = #[trigger] self.vertices@[k];
                        let o = old(self).vertices@[k];
                        v.p == o.p && v.border == o.border && v.tstart == o.tstart && v.tcount
                            == o.tcount
                    },
            decreases nt - tid,
        {
            let t = self.triangles[tid];
            if !t.deleted {
                let p0 = self.vertices[t.v[0]].p;
                let p1 = self.vertices[t.v[1]].p;
                let p2 = self.vertices[t.v[2]].p;
                let normal = p1.minus(&p0).cross(&p2.minus(&p0)).normalized();
                proof {
                    assert(normal == spec_face_unit_normal(old(self).vertices@, t.v));
                }
                let mut t2 = t;
                t2.n = normal;
                proof {
                    lemma_live_count_update(self.triangles@, tid as int, t2);
                }
                self.triangles[tid] = t2;
                let dist = neg_f(normal.dot(&p0));
                let pq = SymmetricMatrix::from_plane(normal.x, normal.y, normal.z, dist);
                proof {
                    assert(pq == spec_plane_quadric(old(self).vertices@, t.v));
                }
                self.accumulate_quadric(t.v[0], &pq);
                self.accumulate_quadric(t.v[1], &pq);
                self.accumulate_quadric(t.v[2], &pq);
                proof {
                    assert forall|k2: int|
                        0 <= k2 < nv implies (#[trigger] self.vertices@[k2]).q
                        == spec_accumulated_quadric(
                        old(self).triangles@,
                        old(self).vertices@,
                        k2,
                        tid + 1,
                    ) by {
                        assert(old(self).triangles@[tid as int].v == t.v);
                        assert(!old(self).triangles@[tid as int].deleted);
                    }
                }
            } else {
                proof {
                    assert forall|k2: int|
                        0 <= k2 < nv implies (#[trigger] self.vertices@[k2]).q
                        == spec_accumulated_quadric(
                        old(self).triangles@,
                        old(self).vertices@,
                        k2,
                        tid + 1,
                    ) by {
                        assert(old(self).triangles@[tid as int].deleted);
                    }
                }
            }
            tid = tid + 1;
        }
    }

    /// Seed every live triangle's three per-edge errors and their minimum
    /// from the combined quadrics of the edges' endpoints, performed exactly
    /// once, during the first rebuild.
    fn seed_errors(&mut self)
        requires
            old(self).wf(),
        ensures
            final(self).wf(),
            final(self).refs == old(self).refs,
            final(self).vertices == old(self).vertices,
            final(self).triangles@.len() == old(self).triangles@.len(),
            live_count(final(self).triangles@) == live_count(old(self).triangles@),
            forall|i: int|
                0 <= i < final(self).triangles@.len() ==> ((#[trigger] final(self).triangles@[i]).v == old(self).triangles@[i].v && final(self).triangles@[i].deleted
                    == old(self).triangles@[i].deleted && final(self).triangles@[i].n == old(self).triangles@[i].n),
            forall|i: int|
                0 <= i < final(self).triangles@.len() && !(#[trigger] final(self).triangles@[i]).deleted ==> final(self).triangles@[i].err == spec_seed_errs(
                    old(self).vertices@,
                    final(self).triangles@[i].v,
                ),
    {
        let nt = self.triangles.len();
        let mut tid: usize = 0;
        while tid < nt
            invariant
                self.wf(),
                nt == self.triangles@.len(),
                tid <= nt,
                self.refs == old(self).refs,
                self.vertices == old(self).vertices,
                live_count(self.triangles@) == live_count(old(self).triangles@),
                forall|k: int|
                    0 <= k < nt ==> ((#[trigger] self.triangles@[k]).v == old(self).triangles@[k].v && self.triangles@[k].deleted == old(self).triangles@[k].deleted
                        && self.triangles@[k].n == old(self).triangles@[k].n),
                forall|k: int|
                    0 <= k < tid && !(#[trigger] self.triangles@[k]).deleted
                        ==> self.triangles@[k].err == spec_seed_errs(
                        old(self).vertices@,
                        self.triangles@[k].v,
                    ),
            decreases nt - tid,
        {
            let t = self.triangles[tid];
            if !t.deleted {
                let e0 = self.seed_edge_error(t.v[0], t.v[1]);
                let e1 = self.seed_edge_error(t.v[1], t.v[2]);
                let e2 = self.seed_edge_error(t.v[2], t.v[0]);
                let mut t2 = t;
                t2.err = [e0, e1, e2, min_f(e0, min_f(e1, e2))];
                proof {
                    lemma_live_count_update(self.triangles@, tid as int, t2);
                }
                self.triangles[tid] = t2;
            }
            tid = tid + 1;
        }
    }

    /// The terminal compaction pass: discard tombstoned triangles, keep only
    /// the vertices some survivor still references, re-index every surviving
    /// triangle through the dense remap, and abandon the reference table. A
    /// surviving triangle whose corner were missing from the remap would be
    /// an internal-consistency violation; the proof shows the marking pass
    /// covers every surviving corner, so that state is unreachable.
    pub fn compact_mesh(&mut self) -> (r: Ghost<(Seq<usize>, Seq<int>)>)
        requires
            old(self).wf(),
        ensures
            final(self).wf(),
            final(self).refs@.len() == 0,
            final(self).triangles@.len() == live_count(old(self).triangles@),
            final(self).vertices@.len() <= old(self).vertices@.len(),
            final(self).vertices@.len() <= 3 * final(self).triangles@.len(),
            forall|i: int|
                0 <= i < final(self).triangles@.len() ==> !(#[trigger] final(self).triangles@[i]).deleted,
            forall|j: int|
                0 <= j < final(self).vertices@.len() ==> appears_in(final(self).triangles@, j),
            // the survivors are the live triangles in order, rewritten
            // through the dense remap `r.0`; each kept vertex is the copy of
            // the old vertex its owner entry `r.1` names
            r@.0.len() == old(self).vertices@.len(),
            forall|i: int|
                0 <= i < final(self).triangles@.len() ==> {
                    let to = live_seq(old(self).triangles@)[i];
                    let tn = #[trigger] final(self).triangles@[i];
                    &&& tn.v[0] == r@.0[to.v[0] as int]
                    &&& tn.v[1] == r@.0[to.v[1] as int]
                    &&& tn.v[2] == r@.0[to.v[2] as int]
                },
            r@.1.len() == final(self).vertices@.len(),
            forall|jn: int|
                0 <= jn < final(self).vertices@.len() ==> {
                    let k = #[trigger] r@.1[jn];
                    &&& 0 <= k < old(self).vertices@.len()
                    &&& r@.0[k] == jn
                    &&& final(self).vertices@[jn].p == old(self).vertices@[k].p
                    &&& final(self).vertices@[jn].q == old(self).vertices@[k].q
                    &&& final(self).vertices@[jn].border == old(self).vertices@[k].border
                },
    {
        proof {
            lemma_live_count_bounds(self.triangles@);
        }
        let (new_triangles, new_vertices, remap, owners) = compact_arrays(
            &self.triangles,
            &self.vertices,
        );
        self.triangles = new_triangles;
        self.vertices = new_vertices;
        self.refs = Vec::new();
        Ghost((remap@, owners@))
    }

    /// The main convergence loop: up to the fixed cap of passes, rebuild at
    /// the usual checkpoints, then scan the triangles in order and collapse
    /// the first edge of each candidate that passes the threshold, border
    /// and flip-guard gates (the preconditions of `collapse_edge`), until
    /// the live triangle count reaches the target; finally compact the
    /// working set. Returns whether the compacted mesh met the target — it
    /// can miss it only by exhausting the fixed pass budget while collapses
    /// keep being rejected.
    pub fn simplify(&mut self, target_count: usize, aggressiveness: u64) -> (reached: bool)
        requires
            old(self).wf(),
        ensures
            reached == (final(self).triangles@.len() <= target_count),
            final(self).wf(),
            final(self).refs@.len() == 0,
            final(self).triangles@.len() <= live_count(old(self).triangles@),
            final(self).vertices@.len() <= old(self).vertices@.len(),
            final(self).vertices@.len() <= 3 * final(self).triangles@.len(),
            forall|i: int|
                0 <= i < final(self).triangles@.len() ==> !(#[trigger] final(self).triangles@[i]).deleted,
            forall|j: int|
                0 <= j < final(self).vertices@.len() ==> appears_in(final(self).triangles@, j),
    {
        let initial_triangle_count = self.triangles.len();
        let mut deleted_triangles: usize = 0;
        let ghost live0 = live_count(old(self).triangles@);
        proof {
            lemma_live_count_bounds(self.triangles@);
        }
        // flag buffers for the flip guard, sized to the largest window
        let mut max_tcount: usize = 0;
        let nv0 = self.vertices.len();
        let mut vi: usize = 0;
        while vi < nv0
            invariant
                vi <= nv0,
                nv0 == self.vertices@.len(),
            decreases nv0 - vi,
        {
            if self.vertices[vi].tcount > max_tcount {
                max_tcount = self.vertices[vi].tcount;
            }
            vi = vi + 1;
        }
        let mut deleted0: Vec<bool> = Vec::new();
        let mut deleted1: Vec<bool> = Vec::new();
        ensure_len(&mut deleted0, max_tcount);
        ensure_len(&mut deleted1, max_tcount);
        let mut iteration: usize = 0;
        while iteration < MAX_PASSES
            invariant
                self.wf(),
                self.vertices@.len() == old(self).vertices@.len(),
                live0 == live_count(old(self).triangles@),
                0 <= live0 <= initial_triangle_count,
                initial_triangle_count == old(self).triangles@.len(),
                deleted_triangles + live_count(self.triangles@) == live0,
            decreases MAX_PASSES - iteration,
        {
            proof {
                lemma_live_count_bounds(self.triangles@);
            }
            let current_triangle_count = initial_triangle_count - deleted_triangles;
            if current_triangle_count <= target_count {
                break;
            }
            if iteration == 0 || iteration % REBUILD_INTERVAL == 0 {
                self.update_mesh(iteration);
                // the rebuild may have grown some vertex's window
                let nv = self.vertices.len();
                let mut cur_max: usize = 0;
                let mut v2: usize = 0;
                while v2 < nv
                    invariant
                        v2 <= nv,
                        nv == self.vertices@.len(),
                    decreases nv - v2,
                {
                    if self.vertices[v2].tcount > cur_max {
                        cur_max = self.vertices[v2].tcount;
                    }
                    v2 = v2 + 1;
                }
                ensure_len(&mut deleted0, cur_max);
                ensure_len(&mut deleted1, cur_max);
            }
            // every triangle starts the pass clean
            let nt0 = self.triangles.len();
            let mut ti: usize = 0;
            while ti < nt0
                invariant
                    ti <= nt0,
                    nt0 == self.triangles@.len(),
                    self.wf(),
                    self.vertices@.len() == old(self).vertices@.len(),
                    deleted_triangles + live_count(self.triangles@) == live0,
                    live0 == live_count(old(self).triangles@),
                    0 <= live0 <= initial_triangle_count,
                    initial_triangle_count == old(self).triangles@.len(),
                decreases nt0 - ti,
            {
                let mut t = self.triangles[ti];
                t.dirty = false;
                proof {
                    lemma_live_count_update(self.triangles@, ti as int, t);
                }
                self.triangles[ti] = t;
                ti = ti + 1;
            }
            // the acceptance threshold grows with the pass index, so early
            // passes only touch near-zero-error edges
            let threshold = mul_f(
                F_THRESHOLD_BASE,
                pow_f(add_f(uint_to_f(iteration), F_THREE), aggressiveness),
            );
            proof {
                assert(threshold == spec_pass_threshold(iteration, aggressiveness));
            }
            let ntri = self.triangles.len();
            let mut tid: usize = 0;
            while tid < ntri
                invariant
                    tid <= ntri,
                    ntri == self.triangles@.len(),
                    self.wf(),
                    self.vertices@.len() == old(self).vertices@.len(),
                    deleted_triangles + live_count(self.triangles@) == live0,
                    live0 == live_count(old(self).triangles@),
                    0 <= live0 <= initial_triangle_count,
                    initial_triangle_count == old(self).triangles@.len(),
                    threshold == spec_pass_threshold(iteration, aggressiveness),
                decreases ntri - tid,
            {
                let t = self.triangles[tid];
                if !t.deleted && !t.dirty && !lt_f(threshold, t.err[3]) {
                    let mut j: usize = 0;
                    let mut done = false;
                    while j < 3 && !done
                        invariant
                            j <= 3,
                            tid < ntri,
                            ntri == self.triangles@.len(),
                            self.wf(),
                            self.vertices@.len() == old(self).vertices@.len(),
                            deleted_triangles + live_count(self.triangles@) == live0,
                            live0 == live_count(old(self).triangles@),
                            0 <= live0 <= initial_triangle_count,
                            !t.deleted,
                            !t.dirty,
                            !flt(threshold, t.err[3]),
                            threshold == spec_pass_threshold(iteration, aggressiveness),
                            !done ==> self.triangles@[tid as int] == t,
                        decreases 3 - j,
                    {
                        let tc = self.triangles[tid];
                        if lt_f(tc.err[j], threshold) {
                            proof {
                                assert(tri_valid(
                                    self.triangles@[tid as int],
                                    self.vertices@.len() as int,
                                ));
                            }
                            let i0 = tc.v[j];
                            let i1 = tc.v[(j + 1) % 3];
                            // border vertices only ever merge with border
                            // vertices, interior only with interior
                            if self.vertices[i0].border == self.vertices[i1].border {
                                let (_error, p_result) = self.calculate_error(i0, i1);
                                let tcount0 = self.vertices[i0].tcount;
                                let tcount1 = self.vertices[i1].tcount;
                                ensure_len(&mut deleted0, tcount0);
                                ensure_len(&mut deleted1, tcount1);
                                clear_prefix(&mut deleted0, tcount0);
                                clear_prefix(&mut deleted1, tcount1);
                                if !self.flipped(&p_result, i0, i1, &mut deleted0) {
                                    if !self.flipped(&p_result, i1, i0, &mut deleted1) {
                                        proof {
                                            lemma_live_count_bounds(self.triangles@);
                                        }
                                        self.collapse_edge(
                                            i0,
                                            i1,
                                            p_result,
                                            &deleted0,
                                            &deleted1,
                                            &mut deleted_triangles,
                                            Ghost(tid),
                                            Ghost(j),
                                            Ghost(iteration),
                                            Ghost(aggressiveness),
                                            Ghost(threshold),
                                        );
                                        done = true;
                                    }
                                }
                            }
                        }
                        j = j + 1;
                    }
                }
                proof {
                    lemma_live_count_bounds(self.triangles@);
                }
                if initial_triangle_count - deleted_triangles <= target_count {
                    break;
                }
                tid = tid + 1;
            }
            iteration = iteration + 1;
        }
        proof {
            lemma_live_count_bounds(self.triangles@);
        }
        self.compact_mesh();
        self.triangles.len() <= target_count
    }

    /// Extract the final mesh data: the surviving positions and the three
    /// corner indices of every surviving triangle, in order.
    pub fn get_result(&self) -> (r: (Vec<Point3>, Vec<(usize, usize, usize)>))
        ensures
            r.0@.len() == self.vertices@.len(),
            forall|j: int| 0 <= j < r.0@.len() ==> r.0@[j] == (#[trigger] self.vertices@[j]).p,
            r.1@.len() == self.triangles@.len(),
            forall|i: int|
                0 <= i < r.1@.len() ==> r.1@[i] == ((#[trigger] self.triangles@[i]).v[0],
                self.triangles@[i].v[1], self.triangles@[i].v[2]),
    {
        let mut result_vertices: Vec<Point3> = Vec::new();
        let mut j: usize = 0;
        let nv = self.vertices.len();
        while j < nv
            invariant
                j <= nv,
                nv == self.vertices@.len(),
                result_vertices@.len() == j,
                forall|k: int|
                    0 <= k < j ==> result_vertices@[k] == (#[trigger] self.vertices@[k]).p,
            decreases nv - j,
        {
            result_vertices.push(self.vertices[j].p);
            j = j + 1;
        }
        let mut result_faces: Vec<(usize, usize, usize)> = Vec::new();
        let mut i: usize = 0;
        let nt = self.triangles.len();
        while i < nt
            invariant
                i <= nt,
                nt == self.triangles@.len(),
                result_faces@.len() == i,
                forall|k: int|
                    0 <= k < i ==> result_faces@[k] == ((#[trigger] self.triangles@[k]).v[0],
                    self.triangles@[k].v[1], self.triangles@[k].v[2]),
            decreases nt - i,
        {
            let t = &self.triangles[i];
            result_faces.push((t.v[0], t.v[1], t.v[2]));
            i = i + 1;
        }
        (result_vertices, result_faces)
    }
}

/// Whether all three corners of a triangle are marked in `used`.
pub open spec fn tri_used(used: Seq<bool>, t: Triangle) -> bool {
    &&& t.v[0] < used.len() && used[t.v[0] as int]
    &&& t.v[1] < used.len() && used[t.v[1] as int]
    &&& t.v[2] < used.len() && used[t.v[2] as int]
}

/// A sequence of cleared flags has no set flag.
pub proof fn lemma_count_true_all_false(s: Seq<bool>)
    requires
        forall|k: int| 0 <= k < s.len() ==> !(#[trigger] s[k]),
    ensures
        count_true(s) == 0,
    decreases s.len(),
{
    if s.len() > 0 {
        lemma_count_true_all_false(s.drop_last());
    }
}

/// Compact a tombstoned working set into dense arrays: the surviving
/// triangles in order, re-indexed through a first-encountered remap of the
/// vertices they still reference.
fn compact_arrays(triangles: &Vec<Triangle>, vertices: &Vec<Vertex>) -> (r: (
    Vec<Triangle>,
    Vec<Vertex>,
    Ghost<Seq<usize>>,
    Ghost<Seq<int>>,
))
    requires
        forall|k: int|
            0 <= k < triangles@.len() ==> tri_valid(#[trigger] triangles@[k], vertices@.len() as int),
        3 * triangles@.len() <= usize::MAX,
    ensures
        r.0@.len() == live_count(triangles@),
        r.1@.len() <= vertices@.len(),
        r.1@.len() <= 3 * r.0@.len(),
        forall|i: int| 0 <= i < r.0@.len() ==> !(#[trigger] r.0@[i]).deleted,
        forall|i: int| 0 <= i < r.0@.len() ==> tri_valid(#[trigger] r.0@[i], r.1@.len() as int),
        forall|j: int| 0 <= j < r.1@.len() ==> appears_in(r.0@, j),
        forall|j: int|
            0 <= j < r.1@.len() ==> (#[trigger] r.1@[j]).tstart == 0 && r.1@[j].tcount == 0,
        // the surviving triangles are the live ones in order, their corners
        // rewritten through the dense remap `r.2`
        r.2@.len() == vertices@.len(),
        forall|i: int|
            0 <= i < r.0@.len() ==> {
                let to = live_seq(triangles@)[i];
                let tn = #[trigger] r.0@[i];
                &&& tn.v[0] == r.2@[to.v[0] as int]
                &&& tn.v[1] == r.2@[to.v[1] as int]
                &&& tn.v[2] == r.2@[to.v[2] as int]
            },
        // each kept vertex record is the copy of the old vertex `r.3` names,
        // and the remap sends that old index to its dense position
        r.3@.len() == r.1@.len(),
        forall|jn: int|
            0 <= jn < r.1@.len() ==> {
                let k = #[trigger] r.3@[jn];
                &&& 0 <= k < vertices@.len()
                &&& r.2@[k] == jn
                &&& r.1@[jn].p == vertices@[k].p
                &&& r.1@[jn].q == vertices@[k].q
                &&& r.1@[jn].border == vertices@[k].border
            },
{
    let nv = vertices.len();
    // discard tombstoned triangles
    let mut kept = collect_live(triangles, nv);
    proof {
        lemma_live_count_bounds(triangles@);
    }
    // mark the vertices the survivors still reference and assign each a
    // dense index in first-encountered order, scanning the survivors'
    // corners; each surviving record keeps its position and quadric but
    // starts with an empty window, since the reference table is gone
    let (used, remap, new_vertices, owners) = build_remap(&kept, vertices);
    // rewrite every survivor's corners through the remap; every corner was
    // marked, so its remap entry is defined
    let ghost kept_before = kept@;
    rewrite_corners(&mut kept, &remap, &used, new_vertices.len());
    proof {
        lemma_live_count_all_live(kept@);
        lemma_count_true_bounds(used@);
        assert forall|jn: int|
            0 <= jn < new_vertices@.len() implies (#[trigger] new_vertices@[jn]).tstart == 0
            && new_vertices@[jn].tcount == 0 by {
            let k = owners@[jn];
        }
        lemma_compaction_covers(
            kept_before,
            kept@,
            used@,
            remap@,
            vertices@,
            new_vertices@,
            owners@,
        );
    }
    (kept, new_vertices, Ghost(remap@), Ghost(owners@))
}

/// After the corner rewrite, every dense vertex index is still referenced:
/// the vertex's mark names a survivor that held its old index, and that
/// survivor's rewritten corner is exactly the dense index.
proof fn lemma_compaction_covers(
    kept_before: Seq<Triangle>,
    kept_after: Seq<Triangle>,
    used: Seq<bool>,
    remap: Seq<usize>,
    vertices: Seq<Vertex>,
    new_vertices: Seq<Vertex>,
    owners: Seq<int>,
)
    requires
        kept_after.len() == kept_before.len(),
        used.len() == vertices.len(),
        remap.len() == vertices.len(),
        used.len() == vertices.len() ==> marks_covered(used, kept_before),
        forall|k: int|
            0 <= k < kept_after.len() ==> {
                let tn = #[trigger] kept_after[k];
                let to = kept_before[k];
                tn.v[0] == remap[to.v[0] as int] && tn.v[1] == remap[to.v[1] as int] && tn.v[2]
                    == remap[to.v[2] as int]
            },
        forall|k: int|
            0 <= k < kept_before.len() ==> tri_valid(#[trigger] kept_before[k], vertices.len() as int),
        owners.len() == new_vertices.len(),
        forall|jn: int|
            0 <= jn < new_vertices.len() ==> {
                let k = #[trigger] owners[jn];
                0 <= k < vertices.len() && used[k] && remap[k] == jn
            },
    ensures
        forall|jn: int| 0 <= jn < new_vertices.len() ==> appears_in(kept_after, jn),
{
    assert forall|jn: int| 0 <= jn < new_vertices.len() implies appears_in(kept_after, jn) by {
        reveal(marks_covered);
        let k = owners[jn];
        assert(used[k] && remap[k] == jn);
        assert(appears_in(kept_before, k));
        let i = choose|i: int|
            0 <= i < kept_before.len() && tri_has_vertex(#[trigger] kept_before[i], k);
        assert(tri_has_vertex(kept_after[i], jn));
    }
}

/// Copy the non-deleted triangles, in order.
fn collect_live(triangles: &Vec<Triangle>, nv: usize) -> (kept: Vec<Triangle>)
    requires
        forall|k: int| 0 <= k < triangles@.len() ==> tri_valid(#[trigger] triangles@[k], nv as int),
    ensures
        kept@ == live_seq(triangles@),
        kept@.len() == live_count(triangles@),
        forall|k: int| 0 <= k < kept@.len() ==> !(#[trigger] kept@[k]).deleted,
        forall|k: int| 0 <= k < kept@.len() ==> tri_valid(#[trigger] kept@[k], nv as int),
{
    let nt = triangles.len();
    let mut kept: Vec<Triangle> = Vec::new();
    let mut j: usize = 0;
    while j < nt
        invariant
            nt == triangles@.len(),
            j <= nt,
            kept@ == live_seq(triangles@.take(j as int)),
            kept@.len() == live_count(triangles@.take(j as int)),
            forall|k: int|
                0 <= k < triangles@.len() ==> tri_valid(#[trigger] triangles@[k], nv as int),
            forall|k: int| 0 <= k < kept@.len() ==> !(#[trigger] kept@[k]).deleted,
            forall|k: int| 0 <= k < kept@.len() ==> tri_valid(#[trigger] kept@[k], nv as int),
        decreases nt - j,
    {
        proof {
            lemma_live_count_take_step(triangles@, j as int);
            lemma_live_seq_take_step(triangles@, j as int);
            lemma_live_count_bounds(triangles@.take(j as int));
        }
        let t = triangles[j];
        if !t.deleted {
            kept.push(t);
        }
        j = j + 1;
    }
    proof {
        assert(triangles@.take(nt as int) =~= triangles@);
    }
    kept
}

/// Scan the kept triangles' corners in order and give each vertex, the
/// first time it is encountered, the next dense index; its record is copied
/// with position and quadric kept and an empty window. The remap entry of
/// every marked vertex points at its copy, every copy comes from some
/// marked vertex, and every kept triangle's corners are all marked.
/// The per-vertex bundle the dense re-indexing maintains: marked vertices
/// map below the copy count onto copies of their positions, and every copy
/// is the record its owner entry names, with an empty window.
pub open spec fn remap_consistent(
    vertices: Seq<Vertex>,
    used: Seq<bool>,
    remap: Seq<usize>,
    new_vertices: Seq<Vertex>,
    owners: Seq<int>,
) -> bool {
    &&& used.len() == vertices.len()
    &&& remap.len() == vertices.len()
    &&& new_vertices.len() == count_true(used)
    &&& owners.len() == new_vertices.len()
    &&& forall|k: int|
        0 <= k < vertices.len() && #[trigger] used[k] ==> remap[k] < new_vertices.len()
            && new_vertices[remap[k] as int].p == vertices[k].p
    &&& forall|jn: int|
        0 <= jn < new_vertices.len() ==> {
            let k = #[trigger] owners[jn];
            &&& 0 <= k < vertices.len()
            &&& used[k]
            &&& remap[k] == jn
            &&& new_vertices[jn].p == vertices[k].p
            &&& new_vertices[jn].q == vertices[k].q
            &&& new_vertices[jn].border == vertices[k].border
            &&& new_vertices[jn].tstart == 0
            &&& new_vertices[jn].tcount == 0
        }
}

/// Mark one corner vertex and, the first time it is seen, give it the next
/// dense index and copy its record with an empty window.
fn assign_corner(
    vertices: &Vec<Vertex>,
    used: &mut Vec<bool>,
    remap: &mut Vec<usize>,
    new_vertices: &mut Vec<Vertex>,
    owners: Ghost<Seq<int>>,
    c: usize,
) -> (r: Ghost<Seq<int>>)
    requires
        c < vertices@.len(),
        remap_consistent(vertices@, old(used)@, old(remap)@, old(new_vertices)@, owners@),
    ensures
        remap_consistent(vertices@, final(used)@, final(remap)@, final(new_vertices)@, r@),
        final(used)@.len() == old(used)@.len(),
        final(used)@[c as int],
        forall|k: int|
            0 <= k < old(used)@.len() && k != c ==> final(used)@[k] == old(used)@[k],
        final(new_vertices)@.len() >= old(new_vertices)@.len(),
        final(new_vertices)@.len() <= old(new_vertices)@.len() + 1,
{
    if !used[c] {
        proof {
            lemma_count_true_update(used@, c as int, true);
        }
        used[c] = true;
        remap[c] = new_vertices.len();
        let v = vertices[c];
        new_vertices.push(Vertex { p: v.p, tstart: 0, tcount: 0, q: v.q, border: v.border });
        Ghost(owners@.push(c as int))
    } else {
        owners
    }
}

fn build_remap(kept: &Vec<Triangle>, vertices: &Vec<Vertex>) -> (r: (
    Vec<bool>,
    Vec<usize>,
    Vec<Vertex>,
    Ghost<Seq<int>>,
))
    requires
        forall|k: int|
            0 <= k < kept@.len() ==> tri_valid(#[trigger] kept@[k], vertices@.len() as int),
        3 * kept@.len() <= usize::MAX,
    ensures
        r.0@.len() == vertices@.len(),
        r.1@.len() == vertices@.len(),
        r.2@.len() == count_true(r.0@),
        r.2@.len() <= 3 * kept@.len(),
        r.3@.len() == r.2@.len(),
        forall|k: int|
            0 <= k < vertices@.len() && #[trigger] r.0@[k] ==> r.1@[k] < r.2@.len()
                && r.2@[r.1@[k] as int].p == vertices@[k].p,
        forall|jn: int|
            0 <= jn < r.2@.len() ==> {
                let k = #[trigger] r.3@[jn];
                &&& 0 <= k < vertices@.len()
                &&& r.0@[k]
                &&& r.1@[k] == jn
                &&& r.2@[jn].p == vertices@[k].p
                &&& r.2@[jn].q == vertices@[k].q
                &&& r.2@[jn].border == vertices@[k].border
                &&& r.2@[jn].tstart == 0
                &&& r.2@[jn].tcount == 0
            },
        forall|k: int| 0 <= k < kept@.len() ==> tri_used(r.0@, #[trigger] kept@[k]),
        marks_covered(r.0@, kept@),
{
    let nv = vertices.len();
    let nk = kept.len();
    let mut used: Vec<bool> = Vec::new();
    let mut i0: usize = 0;
    while i0 < nv
        invariant
            i0 <= nv,
            used@.len() == i0,
            forall|k: int| 0 <= k < i0 ==> !(#[trigger] used@[k]),
        decreases nv - i0,
    {
        used.push(false);
        i0 = i0 + 1;
    }
    proof {
        lemma_count_true_all_false(used@);
    }
    let mut remap: Vec<usize> = Vec::new();
    let mut i1: usize = 0;
    while i1 < nv
        invariant
            i1 <= nv,
            remap@.len() == i1,
        decreases nv - i1,
    {
        remap.push(0);
        i1 = i1 + 1;
    }
    let mut new_vertices: Vec<Vertex> = Vec::new();
    let mut owners: Ghost<Seq<int>> = Ghost(Seq::empty());
    let mut i: usize = 0;
    while i < nk
        invariant
            nk == kept@.len(),
            i <= nk,
            nv == vertices@.len(),
            new_vertices@.len() <= 3 * i,
            3 * nk <= usize::MAX,
            remap_consistent(vertices@, used@, remap@, new_vertices@, owners@),
            forall|k: int| 0 <= k < kept@.len() ==> tri_valid(#[trigger] kept@[k], nv as int),
            forall|ii: int| 0 <= ii < i ==> tri_used(used@, #[trigger] kept@[ii]),
            forall|k: int| 0 <= k < nv ==> (#[trigger] used@[k] ==> appears_in(kept@, k)),
        decreases nk - i,
    {
        let t = kept[i];
        owners = assign_corner(vertices, &mut used, &mut remap, &mut new_vertices, owners, t.v[0]);
        owners = assign_corner(vertices, &mut used, &mut remap, &mut new_vertices, owners, t.v[1]);
        owners = assign_corner(vertices, &mut used, &mut remap, &mut new_vertices, owners, t.v[2]);
        proof {
            assert forall|k: int| 0 <= k < nv && #[trigger] used@[k] implies appears_in(
                kept@,
                k,
            ) by {
                if k == t.v[0] || k == t.v[1] || k == t.v[2] {
                    assert(tri_has_vertex(kept@[i as int], k));
                }
            }
        }
        i = i + 1;
    }
    proof {
        reveal(marks_covered);
    }
    (used, remap, new_vertices, owners)
}

/// Rewrite every kept triangle's corners through the remap; tombstone flags
/// are untouched, and the new corners land below `new_len`.
fn rewrite_corners(kept: &mut Vec<Triangle>, remap: &Vec<usize>, used: &Vec<bool>, new_len: usize)
    requires
        used@.len() == remap@.len(),
        forall|k: int|
            0 <= k < old(kept)@.len() ==> tri_valid(#[trigger] old(kept)@[k], used@.len() as int),
        forall|k: int| 0 <= k < old(kept)@.len() ==> tri_used(used@, #[trigger] old(kept)@[k]),
        forall|k: int| 0 <= k < used@.len() && #[trigger] used@[k] ==> remap@[k] < new_len,
    ensures
        final(kept)@.len() == old(kept)@.len(),
        forall|k: int|
            0 <= k < final(kept)@.len() ==> {
                let tn = #[trigger] final(kept)@[k];
                let to = old(kept)@[k];
                &&& tn.v[0] == remap@[to.v[0] as int]
                &&& tn.v[1] == remap@[to.v[1] as int]
                &&& tn.v[2] == remap@[to.v[2] as int]
                &&& tn.deleted == to.deleted
                &&& tri_valid(tn, new_len as int)
            },
{
    let nk = kept.len();
    let mut i: usize = 0;
    while i < nk
        invariant
            nk == kept@.len(),
            i <= nk,
            used@.len() == remap@.len(),
            forall|k: int| i <= k < nk ==> #[trigger] kept@[k] == old(kept)@[k],
            forall|k: int|
                0 <= k < nk ==> tri_valid(#[trigger] old(kept)@[k], used@.len() as int),
            forall|k: int| 0 <= k < nk ==> tri_used(used@, #[trigger] old(kept)@[k]),
            forall|k: int| 0 <= k < used@.len() && #[trigger] used@[k] ==> remap@[k] < new_len,
            forall|k: int|
                0 <= k < i ==> {
                    let tn = #[trigger] kept@[k];
                    let to = old(kept)@[k];
                    &&& tn.v[0] == remap@[to.v[0] as int]
                    &&& tn.v[1] == remap@[to.v[1] as int]
                    &&& tn.v[2] == remap@[to.v[2] as int]
                    &&& tn.deleted == to.deleted
                    &&& tri_valid(tn, new_len as int)
                },
        decreases nk - i,
    {
        let mut t = kept[i];
        t.v[0] = remap[t.v[0]];
        t.v[1] = remap[t.v[1]];
        t.v[2] = remap[t.v[2]];
        kept[i] = t;
        i = i + 1;
    }
}

/// Grow a flag buffer to at least the given length.
fn ensure_len(v: &mut Vec<bool>, n: usize)
    ensures
        final(v)@.len() >= n,
        final(v)@.len() >= old(v)@.len(),
{
    while v.len() < n
        invariant
            v@.len() >= old(v)@.len(),
        decreases n - v@.len(),
    {
        v.push(false);
    }
}

/// Clear the first `n` flags of a buffer.
fn clear_prefix(v: &mut Vec<bool>, n: usize)
    requires
        n <= old(v)@.len(),
    ensures
        final(v)@.len() == old(v)@.len(),
        forall|i: int| 0 <= i < n ==> final(v)@[i] == false,
{
    let mut i: usize = 0;
    while i < n
        invariant
            i <= n,
            n <= v@.len(),
            v@.len() == old(v)@.len(),
            forall|k: int| 0 <= k < i ==> v@[k] == false,
        decreases n - i,
    {
        v[i] = false;
        i = i + 1;
    }
}

/// Count, capped at two, how often the undirected edge from `v_idx` to its
/// neighbor occurs: the edge `(v0t, v1t)` contributes when it touches
/// `v_idx`, under the key of the other endpoint. Only "exactly once" is ever
/// asked of the counter, so saturating at two loses nothing.
fn bump_edge_count(edges: &mut HashMap<usize, usize>, v0t: usize, v1t: usize, v_idx: usize)
    requires
        forall|key: usize| old(edges)@.contains_key(key) ==> #[trigger] old(edges)@[key] <= 2,
    ensures
        forall|key: usize| final(edges)@.contains_key(key) ==> #[trigger] final(edges)@[key] <= 2,
{
    if v0t == v_idx || v1t == v_idx {
        let neighbor = if v0t == v_idx {
            v1t
        } else {
            v0t
        };
        if neighbor != v_idx {
            match edges.get(&neighbor) {
                Some(c) => {
                    let c2 = *c;
                    if c2 < 2 {
                        edges.insert(neighbor, c2 + 1);
                    }
                },
                None => {
                    edges.insert(neighbor, 1);
                },
            }
        }
    }
}

/// Simplify a triangle mesh with the quadric error metric: reduce it toward
/// `target_count` faces, with `aggressiveness` (the bit pattern of a double)
/// steering how fast the per-pass acceptance threshold grows.
///
/// Degenerate inputs exit early: a target at or above the face count, or
/// fewer than three vertices, return the input unchanged; after those, a
/// target of zero returns an empty mesh. Otherwise the engine runs and the
/// result is a dense mesh: no more faces than before, every face index in
/// range, and no orphan vertices. The face count lands at or below the
/// target unless the fixed pass budget runs out while every remaining
/// collapse is rejected by the threshold or the guards; the engine's own
/// contract reports which of the two happened.
pub fn simplify_mesh(
    input_vertices: &Vec<Point3>,
    input_faces: &Vec<(usize, usize, usize)>,
    target_count: usize,
    aggressiveness: u64,
) -> (r: (Vec<Point3>, Vec<(usize, usize, usize)>))
    requires
        (0 < target_count < input_faces@.len() && input_vertices@.len() >= 3) ==> ((forall|i: int|
            0 <= i < input_faces@.len() ==> ((#[trigger] input_faces@[i]).0
                < input_vertices@.len() && input_faces@[i].1 < input_vertices@.len()
                && input_faces@[i].2 < input_vertices@.len())) && 3 * input_faces@.len()
            <= usize::MAX),
    ensures
        (target_count >= input_faces@.len() || input_vertices@.len() < 3) ==> (r.0@
            == input_vertices@ && r.1@ == input_faces@),
        (target_count == 0 && input_faces@.len() > 0 && input_vertices@.len() >= 3) ==> (r.0@.len()
            == 0 && r.1@.len() == 0),
        r.1@.len() <= input_faces@.len(),
        (0 < target_count < input_faces@.len() && input_vertices@.len() >= 3) ==> {
            &&& r.0@.len() <= input_vertices@.len()
            &&& r.0@.len() <= 3 * r.1@.len()
            &&& forall|i: int|
                0 <= i < r.1@.len() ==> ((#[trigger] r.1@[i]).0 < r.0@.len() && r.1@[i].1
                    < r.0@.len() && r.1@[i].2 < r.0@.len())
            &&& forall|j: int| 0 <= j < r.0@.len() ==> face_references(r.1@, j)
        },
{
    if target_count >= input_faces.len() {
        return (copy_points(input_vertices), copy_faces(input_faces));
    }
    if input_faces.len() == 0 || input_vertices.len() < 3 {
        return (copy_points(input_vertices), copy_faces(input_faces));
    }
    if target_count == 0 {
        return (Vec::new(), Vec::new());
    }
    let mut simplifier = Simplifier::new(input_vertices, input_faces);
    simplifier.simplify(target_count, aggressiveness);
    let r = simplifier.get_result();
    proof {
        assert forall|j: int| 0 <= j < r.0@.len() implies face_references(r.1@, j) by {
            assert(appears_in(simplifier.triangles@, j));
            let i = choose|i: int|
                0 <= i < simplifier.triangles@.len() && tri_has_vertex(
                    #[trigger] simplifier.triangles@[i],
                    j,
                );
            assert(r.1@[i].0 == simplifier.triangles@[i].v[0]);
            assert(r.1@[i].1 == simplifier.triangles@[i].v[1]);
            assert(r.1@[i].2 == simplifier.triangles@[i].v[2]);
        }
        assert forall|i: int|
            0 <= i < r.1@.len() implies ((#[trigger] r.1@[i]).0 < r.0@.len() && r.1@[i].1
            < r.0@.len() && r.1@[i].2 < r.0@.len()) by {
            assert(tri_valid(simplifier.triangles@[i], simplifier.vertices@.len() as int));
        }
    }
    r
}

/// An element-for-element copy of a position list.
fn copy_points(v: &Vec<Point3>) -> (r: Vec<Point3>)
    ensures
        r@ == v@,
{
    let n = v.len();
    let mut r: Vec<Point3> = Vec::new();
    let mut i: usize = 0;
    while i < n
        invariant
            i <= n,
            n == v@.len(),
            r@ == v@.take(i as int),
        decreases n - i,
    {
        r.push(v[i]);
        proof {
            assert(r@ =~= v@.take(i + 1));
        }
        i = i + 1;
    }
    proof {
        assert(v@.take(n as int) =~= v@);
    }
    r
}

/// An element-for-element copy of a face list.
fn copy_faces(v: &Vec<(usize, usize, usize)>) -> (r: Vec<(usize, usize, usize)>)
    ensures
        r@ == v@,
{
    let n = v.len();
    let mut r: Vec<(usize, usize, usize)> = Vec::new();
    let mut i: usize = 0;
    while i < n
        invariant
            i <= n,
            n == v@.len(),
            r@ == v@.take(i as int),
        decreases n - i,
    {
        r.push(v[i]);
        proof {
            assert(r@ =~= v@.take(i + 1));
        }
        i = i + 1;
    }
    proof {
        assert(v@.take(n as int) =~= v@);
    }
    r
}

/// A freshly zeroed counter sequence sums to zero.
pub proof fn lemma_sum_zero_counts(s: Seq<usize>)
    requires
        forall|k: int| 0 <= k < s.len() ==> s[k] == 0,
    ensures
        sum_usize(s) == 0,
    decreases s.len(),
{
    if s.len() > 0 {
        lemma_sum_zero_counts(s.drop_last());
    }
}

} // verus!
