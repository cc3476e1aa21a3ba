//! The triangle-mesh model that the splitter works on, and the mathematical
//! model of recursive bisection.
//!
//! Coordinates are fixed-point integers. Subdivision never divides: instead of
//! halving a midpoint, both endpoints of an edge are summed and the surrounding
//! corner vertices are doubled, so each halving step doubles the coordinate
//! scale. Every leaf of a depth-`d` subdivision performs exactly
//! `(d + 1) / 2` halvings, so all fragments of one split share one scale and
//! every coordinate is exact.

use vstd::prelude::*;
use crate::utils::{Vec2, Vec3};

verus! {

/// Mesh topology; the splitter accepts only `TriangleList`.
#[derive(Clone, Copy, PartialEq, Eq, Structural, Debug)]
pub enum PrimitiveTopology {
    TriangleList,
    LineList,
    PointList,
}

/// A vertex attribute buffer: three-component (positions, normals) or
/// two-component (texture coordinates) fixed-point vectors.
pub enum VertexAttributeValues {
    X3(Vec<Vec3>),
    X2(Vec<Vec2>),
}

/// A triangle-list mesh: per-vertex attributes plus an optional index buffer.
pub struct Mesh {
    pub topology: PrimitiveTopology,
    pub position: Option<VertexAttributeValues>,
    pub normal: Option<VertexAttributeValues>,
    pub uv: Option<VertexAttributeValues>,
    pub indices: Option<Vec<usize>>,
}

/// One vertex of a fragment triangle.
#[derive(Clone, Copy, PartialEq, Eq, Structural, Debug)]
pub struct Vertex {
    pub pos: Vec3,
    pub uv: Vec2,
    pub normal: Vec3,
}

/// A triangle of three vertices.
#[derive(Clone, Copy, PartialEq, Eq, Structural, Debug)]
pub struct Triangle {
    pub a: Vertex,
    pub b: Vertex,
    pub c: Vertex,
}

/// One output fragment of a split: a single re-centered triangle with a
/// synthesized index list and the centroid offset used to place it.
#[derive(Clone, Copy, Debug, PartialEq)]
pub struct Fragment {
    pub a: Vertex,
    pub b: Vertex,
    pub c: Vertex,
    pub indices: [u32; 3],
    pub offset: Vec3,
}

/// Mathematical model of a three-component vector.
pub struct SpecVec3 {
    pub x: int,
    pub y: int,
    pub z: int,
}

/// Mathematical model of a two-component vector.
pub struct SpecVec2 {
    pub x: int,
    pub y: int,
}

/// Mathematical model of a vertex.
pub struct SpecVertex {
    pub pos: SpecVec3,
    pub uv: SpecVec2,
    pub normal: SpecVec3,
}

/// Mathematical model of a triangle.
pub struct SpecTri {
    pub a: SpecVertex,
    pub b: SpecVertex,
    pub c: SpecVertex,
}

impl View for Vec3 {
    type V = SpecVec3;

    open spec fn view(&self) -> SpecVec3 {
        SpecVec3 { x: self.x as int, y: self.y as int, z: self.z as int }
    }
}

impl View for Vec2 {
    type V = SpecVec2;

    open spec fn view(&self) -> SpecVec2 {
        SpecVec2 { x: self.x as int, y: self.y as int }
    }
}

impl View for Vertex {
    type V = SpecVertex;

    open spec fn view(&self) -> SpecVertex {
        SpecVertex { pos: self.pos@, uv: self.uv@, normal: self.normal@ }
    }
}

impl View for Triangle {
    type V = SpecTri;

    open spec fn view(&self) -> SpecTri {
        SpecTri { a: self.a@, b: self.b@, c: self.c@ }
    }
}

impl View for Fragment {
    type V = SpecFrag;

    open spec fn view(&self) -> SpecFrag {
        SpecFrag {
            tri: SpecTri { a: self.a@, b: self.b@, c: self.c@ },
            offset: self.offset@,
        }
    }
}

/// The sum of two vectors: under subdivision's doubled scale, the midpoint of
/// an edge.
pub open spec fn sum3(p: SpecVec3, q: SpecVec3) -> SpecVec3 {
    SpecVec3 { x: p.x + q.x, y: p.y + q.y, z: p.z + q.z }
}

/// The sum of two texture coordinates.
pub open spec fn sum2(p: SpecVec2, q: SpecVec2) -> SpecVec2 {
    SpecVec2 { x: p.x + q.x, y: p.y + q.y }
}

/// A vector at the doubled scale.
pub open spec fn dbl3(p: SpecVec3) -> SpecVec3 {
    SpecVec3 { x: 2 * p.x, y: 2 * p.y, z: 2 * p.z }
}

/// A texture coordinate at the doubled scale.
pub open spec fn dbl2(p: SpecVec2) -> SpecVec2 {
    SpecVec2 { x: 2 * p.x, y: 2 * p.y }
}

/// The midpoint vertex of an edge, at the doubled scale. Subdivided fragments
/// carry the flat normal of the parent triangle.
pub open spec fn mid_vertex(v: SpecVertex, w: SpecVertex, normal: SpecVec3) -> SpecVertex {
    SpecVertex { pos: sum3(v.pos, w.pos), uv: sum2(v.uv, w.uv), normal: normal }
}

/// The squared distance between two points.
pub open spec fn sq_dist(p: SpecVec3, q: SpecVec3) -> int {
    (p.x - q.x) * (p.x - q.x) + (p.y - q.y) * (p.y - q.y) + (p.z - q.z) * (p.z - q.z)
}

/// The index (0, 1 or 2) of the vertex opposite the longest edge; among equal
/// edges the one opposite the highest-numbered vertex wins.
pub open spec fn longest_edge_opposite(t: SpecTri) -> int {
    let s0 = sq_dist(t.b.pos, t.c.pos);
    let s1 = sq_dist(t.c.pos, t.a.pos);
    let s2 = sq_dist(t.a.pos, t.b.pos);
    if s2 >= s1 && s2 >= s0 {
        2
    } else if s1 >= s0 {
        1
    } else {
        0
    }
}

/// Bisection: the longest edge is halved and its opposite vertex `P` joined
/// to the midpoint `M`, yielding the triangles `(P, M, u)` and `(P, M, w)`
/// where `u` and `w` are the longest edge's endpoints in vertex order.
/// Children are at the doubled scale; their normals stay the parent's.
pub open spec fn bisect(t: SpecTri) -> Seq<SpecTri> {
    let n = t.a.normal;
    let k = longest_edge_opposite(t);
    if k == 0 {
        let p = SpecVertex { pos: dbl3(t.a.pos), uv: dbl2(t.a.uv), normal: n };
        let m = mid_vertex(t.b, t.c, n);
        let u = SpecVertex { pos: dbl3(t.b.pos), uv: dbl2(t.b.uv), normal: n };
        let w = SpecVertex { pos: dbl3(t.c.pos), uv: dbl2(t.c.uv), normal: n };
        seq![
            SpecTri { a: p, b: m, c: u },
            SpecTri { a: p, b: m, c: w },
        ]
    } else if k == 1 {
        let p = SpecVertex { pos: dbl3(t.b.pos), uv: dbl2(t.b.uv), normal: n };
        let m = mid_vertex(t.c, t.a, n);
        let u = SpecVertex { pos: dbl3(t.a.pos), uv: dbl2(t.a.uv), normal: n };
        let w = SpecVertex { pos: dbl3(t.c.pos), uv: dbl2(t.c.uv), normal: n };
        seq![
            SpecTri { a: p, b: m, c: u },
            SpecTri { a: p, b: m, c: w },
        ]
    } else {
        let p = SpecVertex { pos: dbl3(t.c.pos), uv: dbl2(t.c.uv), normal: n };
        let m = mid_vertex(t.a, t.b, n);
        let u = SpecVertex { pos: dbl3(t.a.pos), uv: dbl2(t.a.uv), normal: n };
        let w = SpecVertex { pos: dbl3(t.b.pos), uv: dbl2(t.b.uv), normal: n };
        seq![
            SpecTri { a: p, b: m, c: u },
            SpecTri { a: p, b: m, c: w },
        ]
    }
}

/// Quad split: the three edge midpoints cut the triangle into three corner
/// triangles and the central midpoint triangle, all at the doubled scale.
pub open spec fn quad(t: SpecTri) -> Seq<SpecTri> {
    let n = t.a.normal;
    let m0 = mid_vertex(t.b, t.c, n);
    let m1 = mid_vertex(t.c, t.a, n);
    let m2 = mid_vertex(t.a, t.b, n);
    let a2 = SpecVertex { pos: dbl3(t.a.pos), uv: dbl2(t.a.uv), normal: n };
    let b2 = SpecVertex { pos: dbl3(t.b.pos), uv: dbl2(t.b.uv), normal: n };
    let c2 = SpecVertex { pos: dbl3(t.c.pos), uv: dbl2(t.c.uv), normal: n };
    seq![
        SpecTri { a: a2, b: m1, c: m2 },
        SpecTri { a: b2, b: m0, c: m2 },
        SpecTri { a: c2, b: m0, c: m1 },
        SpecTri { a: m0, b: m1, c: m2 },
    ]
}

/// Recursive subdivision of one triangle to depth `d`: depth 0 emits the
/// triangle, depth 1 bisects, and depth 2 or more quad-splits, each child
/// continuing at `d - 2` (a quad split consumes two depth levels because it
/// multiplies the triangle count by four).
pub open spec fn split_tri(t: SpecTri, d: nat) -> Seq<SpecTri>
    decreases d,
{
    if d == 0 {
        seq![t]
    } else if d == 1 {
        bisect(t)
    } else {
        let q = quad(t);
        split_tri(q[0], (d - 2) as nat) + split_tri(q[1], (d - 2) as nat) + split_tri(
            q[2],
            (d - 2) as nat,
        ) + split_tri(q[3], (d - 2) as nat)
    }
}

/// The number of halvings every leaf of a depth-`d` subdivision has gone
/// through: one per bisection, one per quad split (which consumes two depth
/// levels), so `ceil(d / 2)` in all.
pub open spec fn halvings(d: nat) -> nat {
    (d + 1) / 2
}

/// Subdivision of a whole list of triangles, leaves in source order.
pub open spec fn split_all(ts: Seq<SpecTri>, d: nat) -> Seq<SpecTri>
    decreases ts.len(),
{
    if ts.len() == 0 {
        Seq::empty()
    } else {
        split_tri(ts[0], d) + split_all(ts.drop_first(), d)
    }
}

/// A fragment: a triangle re-expressed about its own centroid, plus that
/// centroid as the placement offset. To keep the centroid division exact, the
/// re-centered coordinates are carried at three times the leaf scale: a
/// position `p` of a leaf with vertex sum `s` is stored as `3p - s`, texture
/// coordinates as `3u`, and the offset as `s` (the centroid at the tripled
/// scale). Normals are directions and keep the input scale.
pub struct SpecFrag {
    pub tri: SpecTri,
    pub offset: SpecVec3,
}

/// A position re-centered about the triangle's centroid, at the tripled scale.
pub open spec fn recenter_pos(p: SpecVec3, s: SpecVec3) -> SpecVec3 {
    SpecVec3 { x: 3 * p.x - s.x, y: 3 * p.y - s.y, z: 3 * p.z - s.z }
}

/// A texture coordinate at the tripled scale.
pub open spec fn triple_uv(u: SpecVec2) -> SpecVec2 {
    SpecVec2 { x: 3 * u.x, y: 3 * u.y }
}

/// The vertex sum of a triangle's positions: its centroid at the tripled
/// scale.
pub open spec fn pos_sum(t: SpecTri) -> SpecVec3 {
    sum3(sum3(t.a.pos, t.b.pos), t.c.pos)
}

/// Re-centering one leaf triangle into a fragment.
pub open spec fn recenter(t: SpecTri) -> SpecFrag {
    let s = pos_sum(t);
    SpecFrag {
        tri: SpecTri {
            a: SpecVertex { pos: recenter_pos(t.a.pos, s), uv: triple_uv(t.a.uv), normal: t.a.normal },
            b: SpecVertex { pos: recenter_pos(t.b.pos, s), uv: triple_uv(t.b.uv), normal: t.b.normal },
            c: SpecVertex { pos: recenter_pos(t.c.pos, s), uv: triple_uv(t.c.uv), normal: t.c.normal },
        },
        offset: s,
    }
}

/// The full mathematical result of a split: every initial triangle subdivided
/// to depth `d` and every leaf re-centered.
pub open spec fn split_frags(ts: Seq<SpecTri>, d: nat) -> Seq<SpecFrag> {
    split_all(ts, d).map_values(|t: SpecTri| recenter(t))
}

/// The fragments of a single subdivided triangle.
pub open spec fn frags_of_tri(t: SpecTri, d: nat) -> Seq<SpecFrag> {
    split_tri(t, d).map_values(|x: SpecTri| recenter(x))
}

/// The mathematical view of a list of fragments.
pub open spec fn frags_view(s: Seq<Fragment>) -> Seq<SpecFrag> {
    s.map_values(|f: Fragment| f@)
}

/// The subdivision depth the splitter chooses: the least `d` with
/// `t * 2^d >= target` (zero when the mesh already has enough triangles, or
/// none at all).
pub open spec fn split_depth(t: nat, target: nat) -> nat
    decreases (if t < target {
        (target - t) as int
    } else {
        0int
    }),
{
    if t == 0 || t >= target {
        0
    } else {
        1 + split_depth(2 * t, target)
    }
}

/// A nonempty mesh subdivided to the chosen depth reaches the target count.
pub proof fn lemma_split_depth_reaches(t: nat, target: nat)
    requires
        t >= 1,
    ensures
        t * vstd::arithmetic::power2::pow2(split_depth(t, target)) >= target,
    decreases (if t < target {
        (target - t) as int
    } else {
        0int
    }),
{
    vstd::arithmetic::power2::lemma2_to64();
    if t >= target {
        assert(t * vstd::arithmetic::power2::pow2(0) == t);
    } else {
        lemma_split_depth_reaches(2 * t, target);
        let d = split_depth(2 * t, target);
        vstd::arithmetic::power2::lemma_pow2_adds(1, d);
        assert(t * vstd::arithmetic::power2::pow2(d + 1) == 2 * t * vstd::arithmetic::power2::pow2(
            d,
        )) by (nonlinear_arith)
            requires
                vstd::arithmetic::power2::pow2(d + 1) == 2 * vstd::arithmetic::power2::pow2(d),
        ;
    }
}

/// The chosen depth is minimal: one level less would fall short.
pub proof fn lemma_split_depth_minimal(t: nat, target: nat)
    requires
        t >= 1,
        t < target,
    ensures
        split_depth(t, target) >= 1,
        t * vstd::arithmetic::power2::pow2((split_depth(t, target) - 1) as nat) < target,
    decreases (if t < target {
        (target - t) as int
    } else {
        0int
    }),
{
    vstd::arithmetic::power2::lemma2_to64();
    if 2 * t >= target {
        assert(split_depth(2 * t, target) == 0);
        assert(split_depth(t, target) == 1);
        assert(t * vstd::arithmetic::power2::pow2(0) == t);
    } else {
        lemma_split_depth_minimal(2 * t, target);
        let d = split_depth(2 * t, target);
        vstd::arithmetic::power2::lemma_pow2_adds(1, (d - 1) as nat);
        assert(t * vstd::arithmetic::power2::pow2(d) == 2 * t * vstd::arithmetic::power2::pow2(
            (d - 1) as nat,
        )) by (nonlinear_arith)
            requires
                d >= 1,
                vstd::arithmetic::power2::pow2(d) == 2 * vstd::arithmetic::power2::pow2(
                    (d - 1) as nat,
                ),
        ;
    }
}

/// Unfolding step used by the depth-search loop: doubling the running count
/// takes one level off the remaining depth.
pub proof fn lemma_split_depth_step(t: nat, target: nat)
    requires
        t >= 1,
        t < target,
    ensures
        split_depth(t, target) == 1 + split_depth(2 * t, target),
{
}

/// Subdividing a list's worth of triangles, one list element at a time.
pub proof fn lemma_split_all_snoc(ts: Seq<SpecTri>, t: SpecTri, d: nat)
    ensures
        split_all(ts.push(t), d) == split_all(ts, d) + split_tri(t, d),
    decreases ts.len(),
{
    if ts.len() == 0 {
        assert(ts.push(t).drop_first() =~= ts);
        assert(split_all(ts.push(t), d) =~= split_all(ts, d) + split_tri(t, d));
    } else {
        lemma_split_all_snoc(ts.drop_first(), t, d);
        assert(ts.push(t).drop_first() =~= ts.drop_first().push(t));
        assert(ts.push(t)[0] == ts[0]);
        assert(split_all(ts.push(t), d) == split_tri(ts[0], d) + split_all(
            ts.drop_first().push(t),
            d,
        ));
        assert(split_all(ts.push(t), d) =~= split_all(ts, d) + split_tri(t, d));
    }
}

/// The split of `n` triangles to depth `d` has exactly `n * 2^d` leaves.
pub proof fn lemma_split_all_count(ts: Seq<SpecTri>, d: nat)
    ensures
        split_all(ts, d).len() == ts.len() * vstd::arithmetic::power2::pow2(d),
    decreases ts.len(),
{
    if ts.len() == 0 {
    } else {
        lemma_split_tri_count(ts[0], d);
        lemma_split_all_count(ts.drop_first(), d);
        assert(ts.len() * vstd::arithmetic::power2::pow2(d) == vstd::arithmetic::power2::pow2(d)
            + (ts.len() - 1) * vstd::arithmetic::power2::pow2(d)) by (nonlinear_arith);
    }
}

/// Every coordinate of a fragment (vertices and offset) within `b`.
pub open spec fn frag_within(f: SpecFrag, b: int) -> bool {
    tri_within(f.tri, b) && vec3_within(f.offset, b)
}

/// Re-centering a triangle at most sextuples a coordinate: the stored
/// vertices are `3p - s` with the vertex sum `s` at most three coordinates
/// wide.
pub proof fn lemma_recenter_within(t: SpecTri, b: int)
    requires
        tri_within(t, b),
        0 <= b,
    ensures
        frag_within(recenter(t), 6 * b),
{
}

/// All coordinates of a vector no farther than `b` from zero.
pub open spec fn vec3_within(p: SpecVec3, b: int) -> bool {
    -b <= p.x <= b && -b <= p.y <= b && -b <= p.z <= b
}

/// All coordinates of a texture coordinate no farther than `b` from zero.
pub open spec fn vec2_within(p: SpecVec2, b: int) -> bool {
    -b <= p.x <= b && -b <= p.y <= b
}

/// Every position, texture and normal coordinate of the triangle within `b`.
pub open spec fn tri_within(t: SpecTri, b: int) -> bool {
    &&& vec3_within(t.a.pos, b) && vec2_within(t.a.uv, b) && vec3_within(t.a.normal, b)
    &&& vec3_within(t.b.pos, b) && vec2_within(t.b.uv, b) && vec3_within(t.b.normal, b)
    &&& vec3_within(t.c.pos, b) && vec2_within(t.c.uv, b) && vec3_within(t.c.normal, b)
}

/// One subdivision step at most doubles any coordinate.
#[verifier::rlimit(60)]
pub proof fn lemma_step_within(t: SpecTri, b: int)
    requires
        tri_within(t, b),
        b >= 0,
    ensures
        tri_within(bisect(t)[0], 2 * b),
        tri_within(bisect(t)[1], 2 * b),
        tri_within(quad(t)[0], 2 * b),
        tri_within(quad(t)[1], 2 * b),
        tri_within(quad(t)[2], 2 * b),
        tri_within(quad(t)[3], 2 * b),
{
    let k = longest_edge_opposite(t);
    assert(k == 0 || k == 1 || k == 2);
    assert(tri_within(bisect(t)[0], 2 * b));
    assert(tri_within(bisect(t)[1], 2 * b));
}

/// Every leaf of a depth-`d` subdivision stays within the starting bound
/// scaled by one doubling per halving.
pub proof fn lemma_split_tri_within(t: SpecTri, d: nat, b: int)
    requires
        tri_within(t, b),
        b >= 0,
    ensures
        forall|i: int|
            0 <= i < split_tri(t, d).len() ==> tri_within(
                #[trigger] split_tri(t, d)[i],
                b * vstd::arithmetic::power2::pow2(halvings(d)),
            ),
    decreases d,
{
    vstd::arithmetic::power2::lemma2_to64();
    lemma_step_within(t, b);
    if d == 0 {
        assert(split_tri(t, d) =~= seq![t]);
        assert(b * vstd::arithmetic::power2::pow2(0) == b);
    } else if d == 1 {
        assert(b * vstd::arithmetic::power2::pow2(1) == 2 * b);
    } else {
        let q = quad(t);
        let hd = halvings(d);
        let hr = halvings((d - 2) as nat);
        assert(hd == hr + 1);
        assert(vstd::arithmetic::power2::pow2(hd) == 2 * vstd::arithmetic::power2::pow2(hr)) by {
            vstd::arithmetic::power2::lemma_pow2_adds(1, hr);
        }
        let bb = 2 * b;
        lemma_split_tri_within(q[0], (d - 2) as nat, bb);
        lemma_split_tri_within(q[1], (d - 2) as nat, bb);
        lemma_split_tri_within(q[2], (d - 2) as nat, bb);
        lemma_split_tri_within(q[3], (d - 2) as nat, bb);
        assert(bb * vstd::arithmetic::power2::pow2(hr) == b * vstd::arithmetic::power2::pow2(hd))
            by (nonlinear_arith)
            requires
                vstd::arithmetic::power2::pow2(hd) == 2 * vstd::arithmetic::power2::pow2(hr),
                bb == 2 * b,
        ;
        let bound = b * vstd::arithmetic::power2::pow2(hd);
        let s0 = split_tri(q[0], (d - 2) as nat);
        let s1 = split_tri(q[1], (d - 2) as nat);
        let s2 = split_tri(q[2], (d - 2) as nat);
        let s3 = split_tri(q[3], (d - 2) as nat);
        assert forall|i: int| 0 <= i < split_tri(t, d).len() implies tri_within(
            #[trigger] split_tri(t, d)[i],
            bound,
        ) by {
            let whole = s0 + s1 + s2 + s3;
            assert(split_tri(t, d) == whole);
            if i < s0.len() {
                assert(whole[i] == s0[i]);
            } else if i < s0.len() + s1.len() {
                assert(whole[i] == s1[i - s0.len()]);
            } else if i < s0.len() + s1.len() + s2.len() {
                assert(whole[i] == s2[i - s0.len() - s1.len()]);
            } else {
                assert(whole[i] == s3[i - s0.len() - s1.len() - s2.len()]);
            }
        }
    }
}

/// A depth-`d` subdivision yields exactly `2^d` leaves.
pub proof fn lemma_split_tri_count(t: SpecTri, d: nat)
    ensures
        split_tri(t, d).len() == vstd::arithmetic::power2::pow2(d),
    decreases d,
{
    vstd::arithmetic::power2::lemma2_to64();
    if d == 0 || d == 1 {
    } else {
        let q = quad(t);
        lemma_split_tri_count(q[0], (d - 2) as nat);
        lemma_split_tri_count(q[1], (d - 2) as nat);
        lemma_split_tri_count(q[2], (d - 2) as nat);
        lemma_split_tri_count(q[3], (d - 2) as nat);
        assert(vstd::arithmetic::power2::pow2(d) == 4 * vstd::arithmetic::power2::pow2(
            (d - 2) as nat,
        )) by {
            vstd::arithmetic::power2::lemma_pow2_adds((d - 2) as nat, 2);
        }
    }
}


/// Absolute value.
pub open spec fn abs_i(x: int) -> int {
    if x < 0 {
        -x
    } else {
        x
    }
}

/// Twice a triangle's signed area in the `xy` plane (the cross product of two
/// edges); its magnitude is scale-squared times the true doubled area.
pub open spec fn dbl_area_xy(t: SpecTri) -> int {
    (t.b.pos.x - t.a.pos.x) * (t.c.pos.y - t.a.pos.y) - (t.b.pos.y - t.a.pos.y) * (t.c.pos.x
        - t.a.pos.x)
}

/// The sum of unsigned doubled areas over a list of triangles.
pub open spec fn sum_abs_area(s: Seq<SpecTri>) -> int
    decreases s.len(),
{
    if s.len() == 0 {
        0
    } else {
        abs_i(dbl_area_xy(s[0])) + sum_abs_area(s.drop_first())
    }
}

/// The sum of unsigned doubled areas over a list of fragments.
pub open spec fn sum_abs_frag_area(s: Seq<SpecFrag>) -> int
    decreases s.len(),
{
    if s.len() == 0 {
        0
    } else {
        abs_i(dbl_area_xy(s[0].tri)) + sum_abs_frag_area(s.drop_first())
    }
}

/// Unsigned area sums add up over concatenation.
pub proof fn lemma_sum_abs_area_concat(s1: Seq<SpecTri>, s2: Seq<SpecTri>)
    ensures
        sum_abs_area(s1 + s2) == sum_abs_area(s1) + sum_abs_area(s2),
    decreases s1.len(),
{
    if s1.len() == 0 {
        assert(s1 + s2 =~= s2);
    } else {
        lemma_sum_abs_area_concat(s1.drop_first(), s2);
        assert((s1 + s2).drop_first() =~= s1.drop_first() + s2);
    }
}

/// The two bisection children carry opposite orientations and each exactly
/// half the parent's area at the doubled scale (so twice its doubled area).
pub proof fn lemma_bisect_area(t: SpecTri)
    ensures
        dbl_area_xy(bisect(t)[0]) == -dbl_area_xy(bisect(t)[1]),
        abs_i(dbl_area_xy(bisect(t)[0])) == 2 * abs_i(dbl_area_xy(t)),
{
    let ax = t.a.pos.x;
    let ay = t.a.pos.y;
    let bx = t.b.pos.x;
    let by = t.b.pos.y;
    let cx = t.c.pos.x;
    let cy = t.c.pos.y;
    let dd = dbl_area_xy(t);
    let k = longest_edge_opposite(t);
    if k == 0 {
        assert((bx + cx - 2 * ax) * (2 * by - 2 * ay) - (by + cy - 2 * ay) * (2 * bx - 2 * ax)
            == -2 * ((bx - ax) * (cy - ay) - (by - ay) * (cx - ax))) by (nonlinear_arith);
        assert((bx + cx - 2 * ax) * (2 * cy - 2 * ay) - (by + cy - 2 * ay) * (2 * cx - 2 * ax)
            == 2 * ((bx - ax) * (cy - ay) - (by - ay) * (cx - ax))) by (nonlinear_arith);
        assert(dbl_area_xy(bisect(t)[0]) == -2 * dd);
        assert(dbl_area_xy(bisect(t)[1]) == 2 * dd);
    } else if k == 1 {
        assert((cx + ax - 2 * bx) * (2 * ay - 2 * by) - (cy + ay - 2 * by) * (2 * ax - 2 * bx)
            == 2 * ((bx - ax) * (cy - ay) - (by - ay) * (cx - ax))) by (nonlinear_arith);
        assert((cx + ax - 2 * bx) * (2 * cy - 2 * by) - (cy + ay - 2 * by) * (2 * cx - 2 * bx)
            == -2 * ((bx - ax) * (cy - ay) - (by - ay) * (cx - ax))) by (nonlinear_arith);
        assert(dbl_area_xy(bisect(t)[0]) == 2 * dd);
        assert(dbl_area_xy(bisect(t)[1]) == -2 * dd);
    } else {
        assert((ax + bx - 2 * cx) * (2 * ay - 2 * cy) - (ay + by - 2 * cy) * (2 * ax - 2 * cx)
            == -2 * ((bx - ax) * (cy - ay) - (by - ay) * (cx - ax))) by (nonlinear_arith);
        assert((ax + bx - 2 * cx) * (2 * by - 2 * cy) - (ay + by - 2 * cy) * (2 * bx - 2 * cx)
            == 2 * ((bx - ax) * (cy - ay) - (by - ay) * (cx - ax))) by (nonlinear_arith);
        assert(dbl_area_xy(bisect(t)[0]) == -2 * dd);
        assert(dbl_area_xy(bisect(t)[1]) == 2 * dd);
    }
}

/// Each quad-split child carries exactly the parent's doubled area at the
/// doubled scale (a quarter of the parent, scaled by four).
pub proof fn lemma_quad_area(t: SpecTri)
    ensures
        dbl_area_xy(quad(t)[0]) == -dbl_area_xy(t),
        dbl_area_xy(quad(t)[1]) == dbl_area_xy(t),
        dbl_area_xy(quad(t)[2]) == -dbl_area_xy(t),
        dbl_area_xy(quad(t)[3]) == dbl_area_xy(t),
{
    let ax = t.a.pos.x;
    let ay = t.a.pos.y;
    let bx = t.b.pos.x;
    let by = t.b.pos.y;
    let cx = t.c.pos.x;
    let cy = t.c.pos.y;
    assert((cx + ax - 2 * ax) * (ay + by - 2 * ay) - (cy + ay - 2 * ay) * (ax + bx - 2 * ax)
        == -((bx - ax) * (cy - ay) - (by - ay) * (cx - ax))) by (nonlinear_arith);
    assert((bx + cx - 2 * bx) * (ay + by - 2 * by) - (by + cy - 2 * by) * (ax + bx - 2 * bx) == (
    (bx - ax) * (cy - ay) - (by - ay) * (cx - ax))) by (nonlinear_arith);
    assert((bx + cx - 2 * cx) * (cy + ay - 2 * cy) - (by + cy - 2 * cy) * (cx + ax - 2 * cx)
        == -((bx - ax) * (cy - ay) - (by - ay) * (cx - ax))) by (nonlinear_arith);
    assert(((cx + ax) - (bx + cx)) * ((ay + by) - (by + cy)) - ((cy + ay) - (by + cy)) * ((ax + bx)
        - (bx + cx)) == ((bx - ax) * (cy - ay) - (by - ay) * (cx - ax))) by (nonlinear_arith);
}

/// Area conservation through subdivision: the leaves' unsigned doubled areas
/// sum to the parent's, scaled by four for each halving (the square of the
/// doubled coordinate scale).
pub proof fn lemma_split_tri_area(t: SpecTri, d: nat)
    ensures
        sum_abs_area(split_tri(t, d)) == abs_i(dbl_area_xy(t)) * vstd::arithmetic::power2::pow2(
            2 * halvings(d),
        ),
    decreases d,
{
    vstd::arithmetic::power2::lemma2_to64();
    reveal_with_fuel(sum_abs_area, 4);
    let dd = abs_i(dbl_area_xy(t));
    if d == 0 {
        assert(split_tri(t, 0).drop_first() =~= Seq::<SpecTri>::empty());
        assert(sum_abs_area(split_tri(t, 0)) == dd);
        assert(halvings(0) == 0);
        assert(vstd::arithmetic::power2::pow2(0) == 1);
        assert(dd * vstd::arithmetic::power2::pow2(2 * halvings(d)) == dd) by (nonlinear_arith)
            requires
                d == 0,
                halvings(0) == 0,
                vstd::arithmetic::power2::pow2(0) == 1,
        ;
    } else if d == 1 {
        lemma_bisect_area(t);
        let s = bisect(t);
        assert(s.drop_first()[0] == s[1]);
        assert(s.drop_first().drop_first() =~= Seq::<SpecTri>::empty());
        assert(sum_abs_area(s) == abs_i(dbl_area_xy(s[0])) + abs_i(dbl_area_xy(s[1])));
        assert(abs_i(dbl_area_xy(s[1])) == 2 * dd);
        assert(sum_abs_area(s) == dd * 4);
        assert(halvings(1) == 1);
        assert(vstd::arithmetic::power2::pow2(2) == 4);
        assert(dd * vstd::arithmetic::power2::pow2(2 * halvings(d)) == dd * 4) by (nonlinear_arith)
            requires
                d == 1,
                halvings(1) == 1,
                vstd::arithmetic::power2::pow2(2) == 4,
        ;
    } else {
        let q = quad(t);
        let dr = (d - 2) as nat;
        lemma_quad_area(t);
        lemma_split_tri_area(q[0], dr);
        lemma_split_tri_area(q[1], dr);
        lemma_split_tri_area(q[2], dr);
        lemma_split_tri_area(q[3], dr);
        lemma_sum_abs_area_concat(split_tri(q[0], dr), split_tri(q[1], dr));
        lemma_sum_abs_area_concat(split_tri(q[0], dr) + split_tri(q[1], dr), split_tri(q[2], dr));
        lemma_sum_abs_area_concat(
            split_tri(q[0], dr) + split_tri(q[1], dr) + split_tri(q[2], dr),
            split_tri(q[3], dr),
        );
        assert(abs_i(dbl_area_xy(q[0])) == dd);
        assert(abs_i(dbl_area_xy(q[1])) == dd);
        assert(abs_i(dbl_area_xy(q[2])) == dd);
        assert(abs_i(dbl_area_xy(q[3])) == dd);
        let p = vstd::arithmetic::power2::pow2(2 * halvings(dr));
        assert(sum_abs_area(split_tri(t, d)) == 4 * (dd * p));
        assert(2 * halvings(d) == 2 * halvings(dr) + 2);
        assert(vstd::arithmetic::power2::pow2(2 * halvings(d)) == 4 * p) by {
            vstd::arithmetic::power2::lemma_pow2_adds(2, 2 * halvings(dr));
        }
        assert(4 * (dd * p) == dd * (4 * p)) by (nonlinear_arith);
        assert(sum_abs_area(split_tri(t, d)) == dd * vstd::arithmetic::power2::pow2(
            2 * halvings(d),
        ));
    }
    assert(sum_abs_area(split_tri(t, d)) == dd * vstd::arithmetic::power2::pow2(2 * halvings(d)));
}

/// Re-centering multiplies the doubled area by nine: positions map through
/// `p -> 3p - s`, a similarity of linear scale three.
pub proof fn lemma_recenter_area(t: SpecTri)
    ensures
        dbl_area_xy(recenter(t).tri) == 9 * dbl_area_xy(t),
{
    let ax = t.a.pos.x;
    let ay = t.a.pos.y;
    let bx = t.b.pos.x;
    let by = t.b.pos.y;
    let cx = t.c.pos.x;
    let cy = t.c.pos.y;
    let sx = ax + bx + cx;
    let sy = ay + by + cy;
    assert(((3 * bx - sx) - (3 * ax - sx)) * ((3 * cy - sy) - (3 * ay - sy)) - ((3 * by - sy) - (3
        * ay - sy)) * ((3 * cx - sx) - (3 * ax - sx)) == 9 * ((bx - ax) * (cy - ay) - (by - ay) * (
    cx - ax))) by (nonlinear_arith);
}


/// A re-centered fragment's stored vertices sum to the zero vector: the
/// triangle really is centered on its own centroid, and adding the offset
/// back to each vertex restores the leaf triangle at the tripled scale, whose
/// centroid is exactly the offset.
pub proof fn lemma_recenter_centroid(t: SpecTri)
    ensures
        pos_sum(recenter(t).tri) == (SpecVec3 { x: 0, y: 0, z: 0 }),
        recenter(t).offset == pos_sum(t),
        sum3(recenter(t).tri.a.pos, recenter(t).offset) == (SpecVec3 {
            x: 3 * t.a.pos.x,
            y: 3 * t.a.pos.y,
            z: 3 * t.a.pos.z,
        }),
{
}

/// Re-centering one triangle at a time keeps the unsigned area sum at nine
/// times the leaves' (the square of the tripled scale).
pub proof fn lemma_map_recenter_area(s: Seq<SpecTri>)
    ensures
        sum_abs_frag_area(s.map_values(|x: SpecTri| recenter(x))) == 9 * sum_abs_area(s),
    decreases s.len(),
{
    let f = |x: SpecTri| recenter(x);
    if s.len() == 0 {
        assert(s.map_values(f).len() == 0);
    } else {
        lemma_map_recenter_area(s.drop_first());
        lemma_recenter_area(s[0]);
        assert(s.map_values(f).drop_first() =~= s.drop_first().map_values(f));
        assert(s.map_values(f)[0] == recenter(s[0]));
        assert(abs_i(9 * dbl_area_xy(s[0])) == 9 * abs_i(dbl_area_xy(s[0])));
    }
}

/// Unsigned area sums over a whole list's subdivision.
pub proof fn lemma_split_all_area(ts: Seq<SpecTri>, d: nat)
    ensures
        sum_abs_area(split_all(ts, d)) == sum_abs_area(ts) * vstd::arithmetic::power2::pow2(
            2 * halvings(d),
        ),
    decreases ts.len(),
{
    let p = vstd::arithmetic::power2::pow2(2 * halvings(d));
    if ts.len() == 0 {
        assert(sum_abs_area(split_all(ts, d)) == 0);
        assert(0 * p == 0) by (nonlinear_arith);
    } else {
        lemma_split_all_area(ts.drop_first(), d);
        lemma_split_tri_area(ts[0], d);
        lemma_sum_abs_area_concat(split_tri(ts[0], d), split_all(ts.drop_first(), d));
        let a0 = abs_i(dbl_area_xy(ts[0]));
        let rest = sum_abs_area(ts.drop_first());
        assert(sum_abs_area(split_all(ts, d)) == a0 * p + rest * p);
        assert(a0 * p + rest * p == (a0 + rest) * p) by (nonlinear_arith);
    }
}

/// Area conservation for a full split: the fragments' unsigned doubled areas
/// sum to the initial triangles', scaled by the square of the output
/// coordinate scale `3 * 2^halvings`. At the input scale the fragments cover
/// exactly the area of the mesh they came from: no holes and no overlap.
pub proof fn lemma_split_frags_area(ts: Seq<SpecTri>, d: nat)
    ensures
        sum_abs_frag_area(split_frags(ts, d)) == 9 * vstd::arithmetic::power2::pow2(
            2 * halvings(d),
        ) * sum_abs_area(ts),
{
    lemma_map_recenter_area(split_all(ts, d));
    lemma_split_all_area(ts, d);
    let p = vstd::arithmetic::power2::pow2(2 * halvings(d));
    assert(9 * (sum_abs_area(ts) * p) == 9 * p * sum_abs_area(ts)) by (nonlinear_arith);
}


/// A mesh that already has enough triangles is passed through unchanged:
/// depth zero subdivides nothing, so the fragments are exactly the initial
/// triangles, re-centered and in order.
pub proof fn lemma_split_identity_when_enough(ts: Seq<SpecTri>)
    ensures
        split_all(ts, 0) == ts,
        split_frags(ts, 0).len() == ts.len(),
        forall|i: int| 0 <= i < ts.len() ==> #[trigger] split_frags(ts, 0)[i] == recenter(ts[i]),
    decreases ts.len(),
{
    if ts.len() == 0 {
        assert(split_all(ts, 0) =~= ts);
    } else {
        lemma_split_identity_when_enough(ts.drop_first());
        assert(split_tri(ts[0], 0) =~= seq![ts[0]]);
        assert(split_all(ts, 0) =~= ts);
    }
}

/// Every fragment of a split is centered on its own centroid: its stored
/// vertices sum to the zero vector, and its recorded offset is exactly the
/// vertex sum (the centroid at the tripled scale) of the leaf triangle it
/// came from.
pub proof fn lemma_split_fragments_centered(ts: Seq<SpecTri>, d: nat)
    ensures
        split_frags(ts, d).len() == split_all(ts, d).len(),
        forall|i: int|
            0 <= i < split_frags(ts, d).len() ==> pos_sum(
                (#[trigger] split_frags(ts, d)[i]).tri,
            ) == (SpecVec3 { x: 0, y: 0, z: 0 }),
        forall|i: int|
            0 <= i < split_frags(ts, d).len() ==> (#[trigger] split_frags(ts, d)[i]).offset
                == pos_sum(split_all(ts, d)[i]),
{
    assert forall|i: int| 0 <= i < split_frags(ts, d).len() implies pos_sum(
        (#[trigger] split_frags(ts, d)[i]).tri,
    ) == (SpecVec3 { x: 0, y: 0, z: 0 }) && split_frags(ts, d)[i].offset == pos_sum(
        split_all(ts, d)[i],
    ) by {
        assert(split_frags(ts, d)[i] == recenter(split_all(ts, d)[i]));
        lemma_recenter_centroid(split_all(ts, d)[i]);
    }
}

/// Splitting the same triangles to the same depth twice yields identical
/// fragment lists: the subdivision is a function of its inputs alone, with
/// the same count and the same centroid offsets fragment by fragment.
pub proof fn lemma_split_deterministic(ts: Seq<SpecTri>, d: nat, r1: Seq<SpecFrag>, r2: Seq<
    SpecFrag,
>)
    requires
        r1 == split_frags(ts, d),
        r2 == split_frags(ts, d),
    ensures
        r1 == r2,
        r1.len() == r2.len(),
        forall|i: int| 0 <= i < r1.len() ==> (#[trigger] r1[i]).offset == r2[i].offset,
{
}

} // verus!
