//! The mesh splitter and the per-tick systems: fragmentation, particle
//! aging, and the capacity ceiling.

use vstd::prelude::*;
use vstd::arithmetic::power2::pow2;
use crate::components::{DespawnParticle, OriginalAlpha, Timer};
use crate::despawn::{grayscale, luminance, Color, DespawnMaterial};
use crate::events::{
    next_state, CountProperty, DespawnParticlesEvent, Property, SampleSource, Vec2Property,
};
use crate::mesh::{
    bisect, frags_of_tri, frags_view, halvings, longest_edge_opposite, mid_vertex, quad, recenter,
    split_depth, split_frags, sq_dist, tri_within, vec2_within, vec3_within, Fragment, Mesh,
    PrimitiveTopology, SpecFrag, SpecTri, SpecVec2, SpecVec3, SpecVertex, Triangle, Vertex,
    VertexAttributeValues,
};
use crate::phys::{AdditionalMassProperties, Damping, Transform, Velocity, PHYS_LIMIT, TRANS_LIMIT};
use crate::resources::{DespawnParticleQueue, DespawnParticlesConfig};
use crate::utils::{clamp_to, div_fp, div_trunc, isqrt, Vec2, Vec3, FP_ONE};

verus! {

/// The largest coordinate magnitude the subdivision recursion ever stores;
/// chosen so that re-centering (`3 * p - s`, at worst six times a leaf
/// coordinate) still fits an `i64`.
pub const STORE_LIMIT: i64 = 0x0800_0000_0000_0000;

/// Why one despawn request could not produce particles. Each failure is local
/// to its request: the caller logs it and moves on.
#[derive(Clone, Copy, PartialEq, Eq, Structural, Debug)]
pub enum DespawnParticlesError {
    InvalidImageHandle,
    InvalidMeshHandle,
    EntityMissingComponents,
    UnexpectedMeshTopology,
    UnexpectedMeshPositionAttributeFormat,
    InvalidIndexCount(usize),
    UnexpectedMeshUvAttributeFormat,
    MeshMissingUvAttribute,
    MeshMissingPositionAttribute,
}

/// The squared distance between two points, exactly.
fn sq_dist_exec(p: &Vec3, q: &Vec3) -> (r: i128)
    requires
        vec3_within(p@, STORE_LIMIT as int),
        vec3_within(q@, STORE_LIMIT as int),
    ensures
        r == sq_dist(p@, q@),
{
    let dx: i128 = p.x as i128 - q.x as i128;
    let dy: i128 = p.y as i128 - q.y as i128;
    let dz: i128 = p.z as i128 - q.z as i128;
    proof {
        let lim = 2 * STORE_LIMIT as int;
        assert(0 <= dx * dx <= lim * lim && 0 <= dy * dy <= lim * lim && 0 <= dz * dz <= lim * lim)
            by (nonlinear_arith)
            requires
                -lim <= dx <= lim,
                -lim <= dy <= lim,
                -lim <= dz <= lim,
                lim == 0x1000_0000_0000_0000,
        ;
    }
    dx * dx + dy * dy + dz * dz
}

/// A corner vertex carried to the doubled scale, taking the parent
/// triangle's flat normal.
fn vertex_dbl(v: &Vertex, n: &Vec3, Ghost(b): Ghost<int>) -> (r: Vertex)
    requires
        vec3_within(v.pos@, b),
        vec2_within(v.uv@, b),
        0 <= b,
        2 * b <= STORE_LIMIT as int,
    ensures
        r.pos@ == crate::mesh::dbl3(v.pos@),
        r.uv@ == crate::mesh::dbl2(v.uv@),
        r.normal == *n,
{
    Vertex {
        pos: Vec3 { x: 2 * v.pos.x, y: 2 * v.pos.y, z: 2 * v.pos.z },
        uv: Vec2 { x: 2 * v.uv.x, y: 2 * v.uv.y },
        normal: *n,
    }
}

/// The midpoint vertex of an edge, at the doubled scale, carrying the parent
/// triangle's flat normal.
fn vertex_mid(v: &Vertex, w: &Vertex, n: &Vec3, Ghost(b): Ghost<int>) -> (r: Vertex)
    requires
        vec3_within(v.pos@, b),
        vec2_within(v.uv@, b),
        vec3_within(w.pos@, b),
        vec2_within(w.uv@, b),
        0 <= b,
        2 * b <= STORE_LIMIT as int,
    ensures
        r@ == mid_vertex(v@, w@, n@),
{
    Vertex {
        pos: Vec3 { x: v.pos.x + w.pos.x, y: v.pos.y + w.pos.y, z: v.pos.z + w.pos.z },
        uv: Vec2 { x: v.uv.x + w.uv.x, y: v.uv.y + w.uv.y },
        normal: *n,
    }
}

/// The index of the vertex opposite the triangle's longest edge.
fn longest_edge_exec(t: &Triangle) -> (k: usize)
    requires
        tri_within(t@, STORE_LIMIT as int),
    ensures
        k == longest_edge_opposite(t@),
        k < 3,
{
    let s0 = sq_dist_exec(&t.b.pos, &t.c.pos);
    let s1 = sq_dist_exec(&t.c.pos, &t.a.pos);
    let s2 = sq_dist_exec(&t.a.pos, &t.b.pos);
    if s2 >= s1 && s2 >= s0 {
        2
    } else if s1 >= s0 {
        1
    } else {
        0
    }
}

/// Bisection of the triangle's longest edge into two half triangles.
fn bisect_exec(t: &Triangle, Ghost(b): Ghost<int>) -> (r: (Triangle, Triangle))
    requires
        tri_within(t@, b),
        0 <= b,
        2 * b <= STORE_LIMIT as int,
    ensures
        r.0@ == bisect(t@)[0],
        r.1@ == bisect(t@)[1],
{
    let k = longest_edge_exec(t);
    let n = t.a.normal;
    if k == 2 {
        let p = vertex_dbl(&t.c, &n, Ghost(b));
        let m = vertex_mid(&t.a, &t.b, &n, Ghost(b));
        let u = vertex_dbl(&t.a, &n, Ghost(b));
        let w = vertex_dbl(&t.b, &n, Ghost(b));
        (Triangle { a: p, b: m, c: u }, Triangle { a: p, b: m, c: w })
    } else if k == 1 {
        let p = vertex_dbl(&t.b, &n, Ghost(b));
        let m = vertex_mid(&t.c, &t.a, &n, Ghost(b));
        let u = vertex_dbl(&t.a, &n, Ghost(b));
        let w = vertex_dbl(&t.c, &n, Ghost(b));
        (Triangle { a: p, b: m, c: u }, Triangle { a: p, b: m, c: w })
    } else {
        let p = vertex_dbl(&t.a, &n, Ghost(b));
        let m = vertex_mid(&t.b, &t.c, &n, Ghost(b));
        let u = vertex_dbl(&t.b, &n, Ghost(b));
        let w = vertex_dbl(&t.c, &n, Ghost(b));
        (Triangle { a: p, b: m, c: u }, Triangle { a: p, b: m, c: w })
    }
}

/// Quad split into the three corner triangles and the central triangle.
fn quad_exec(t: &Triangle, Ghost(b): Ghost<int>) -> (r: (Triangle, Triangle, Triangle, Triangle))
    requires
        tri_within(t@, b),
        0 <= b,
        2 * b <= STORE_LIMIT as int,
    ensures
        r.0@ == quad(t@)[0],
        r.1@ == quad(t@)[1],
        r.2@ == quad(t@)[2],
        r.3@ == quad(t@)[3],
{
    let n = t.a.normal;
    let m0 = vertex_mid(&t.b, &t.c, &n, Ghost(b));
    let m1 = vertex_mid(&t.c, &t.a, &n, Ghost(b));
    let m2 = vertex_mid(&t.a, &t.b, &n, Ghost(b));
    let a2 = vertex_dbl(&t.a, &n, Ghost(b));
    let b2 = vertex_dbl(&t.b, &n, Ghost(b));
    let c2 = vertex_dbl(&t.c, &n, Ghost(b));
    (
        Triangle { a: a2, b: m1, c: m2 },
        Triangle { a: b2, b: m0, c: m2 },
        Triangle { a: c2, b: m0, c: m1 },
        Triangle { a: m0, b: m1, c: m2 },
    )
}

/// Re-centering one leaf triangle into a fragment: positions become
/// `3 * p - s` (the centroid moved to the origin at the tripled scale),
/// texture coordinates are tripled to match, the vertex sum `s` becomes the
/// placement offset, and the index list is synthesized.
fn recenter_exec(t: &Triangle) -> (f: Fragment)
    requires
        tri_within(t@, STORE_LIMIT as int),
    ensures
        f@ == recenter(t@),
        f.indices@ == seq![0u32, 1u32, 2u32],
{
    let sx: i64 = t.a.pos.x + t.b.pos.x + t.c.pos.x;
    let sy: i64 = t.a.pos.y + t.b.pos.y + t.c.pos.y;
    let sz: i64 = t.a.pos.z + t.b.pos.z + t.c.pos.z;
    let f = Fragment {
        a: Vertex {
            pos: Vec3 { x: 3 * t.a.pos.x - sx, y: 3 * t.a.pos.y - sy, z: 3 * t.a.pos.z - sz },
            uv: Vec2 { x: 3 * t.a.uv.x, y: 3 * t.a.uv.y },
            normal: t.a.normal,
        },
        b: Vertex {
            pos: Vec3 { x: 3 * t.b.pos.x - sx, y: 3 * t.b.pos.y - sy, z: 3 * t.b.pos.z - sz },
            uv: Vec2 { x: 3 * t.b.uv.x, y: 3 * t.b.uv.y },
            normal: t.b.normal,
        },
        c: Vertex {
            pos: Vec3 { x: 3 * t.c.pos.x - sx, y: 3 * t.c.pos.y - sy, z: 3 * t.c.pos.z - sz },
            uv: Vec2 { x: 3 * t.c.uv.x, y: 3 * t.c.uv.y },
            normal: t.c.normal,
        },
        indices: [0u32, 1u32, 2u32],
        offset: Vec3 { x: sx, y: sy, z: sz },
    };
    proof {
        assert(f.indices@ =~= seq![0u32, 1u32, 2u32]);
    }
    f
}

/// Recursive subdivision of one triangle to the given depth, appending every
/// re-centered leaf to `out` in emission order.
#[verifier::rlimit(80)]
fn split_tri_rec(t: &Triangle, depth: usize, out: &mut Vec<Fragment>, Ghost(b): Ghost<int>)
    requires
        tri_within(t@, b),
        0 <= b,
        b * pow2(halvings(depth as nat)) <= STORE_LIMIT as int,
    ensures
        final(out)@.len() == old(out)@.len() + frags_of_tri(t@, depth as nat).len(),
        forall|i: int| 0 <= i < old(out)@.len() ==> #[trigger] final(out)@[i] == old(out)@[i],
        frags_view(final(out)@) == frags_view(old(out)@) + frags_of_tri(t@, depth as nat),
        forall|i: int|
            old(out)@.len() <= i < final(out)@.len() ==> (#[trigger] final(out)@[i]).indices@
                == seq![0u32, 1u32, 2u32],
        forall|i: int|
            old(out)@.len() <= i < final(out)@.len() ==> crate::mesh::frag_within(
                (#[trigger] final(out)@[i])@,
                6 * b * pow2(halvings(depth as nat)),
            ),
    decreases depth,
{
    proof {
        vstd::arithmetic::power2::lemma2_to64();
        vstd::arithmetic::power2::lemma_pow2_pos(halvings(depth as nat));
        if depth >= 1 {
            assert(halvings(depth as nat) >= 1);
            assert(pow2(halvings(depth as nat)) >= 2) by {
                vstd::arithmetic::power2::lemma_pow2_adds(1, (halvings(depth as nat) - 1) as nat);
                vstd::arithmetic::power2::lemma_pow2_pos((halvings(depth as nat) - 1) as nat);
            }
            assert(2 * b <= b * pow2(halvings(depth as nat))) by (nonlinear_arith)
                requires
                    0 <= b,
                    pow2(halvings(depth as nat)) >= 2,
            ;
        }
    }
    if depth == 0 {
        assert(b * 1 == b);
        let f = recenter_exec(t);
        proof {
            crate::mesh::lemma_recenter_within(t@, b);
        }
        out.push(f);
        proof {
            assert(frags_view(out@) =~= frags_view(old(out)@) + frags_of_tri(t@, 0));
        }
    } else if depth == 1 {
        let (c0, c1) = bisect_exec(t, Ghost(b));
        proof {
            crate::mesh::lemma_step_within(t@, b);
            crate::mesh::lemma_recenter_within(c0@, 2 * b);
            crate::mesh::lemma_recenter_within(c1@, 2 * b);
            assert(6 * b * pow2(1) == 6 * (2 * b));
        }
        let f0 = recenter_exec(&c0);
        let f1 = recenter_exec(&c1);
        out.push(f0);
        out.push(f1);
        proof {
            assert(frags_view(out@) =~= frags_view(old(out)@) + frags_of_tri(t@, 1));
        }
    } else {
        let ghost b2 = 2 * b;
        proof {
            crate::mesh::lemma_split_tri_within(t@, depth as nat, b);
            let hd = halvings(depth as nat);
            let hr = halvings((depth - 2) as nat);
            assert(hd == hr + 1);
            assert(pow2(hd) == 2 * pow2(hr)) by {
                vstd::arithmetic::power2::lemma_pow2_adds(1, hr);
            }
            assert(b2 * pow2(hr) == b * pow2(hd)) by (nonlinear_arith)
                requires
                    pow2(hd) == 2 * pow2(hr),
                    b2 == 2 * b,
            ;
            assert(6 * b2 * pow2(hr) == 6 * b * pow2(hd)) by (nonlinear_arith)
                requires
                    pow2(hd) == 2 * pow2(hr),
                    b2 == 2 * b,
            ;
        }
        let (q0, q1, q2, q3) = quad_exec(t, Ghost(b));
        proof {
            crate::mesh::lemma_split_tri_within(t@, depth as nat, b);
            assert(tri_within(q0@, b2) && tri_within(q1@, b2) && tri_within(q2@, b2)
                && tri_within(q3@, b2)) by {
                crate::mesh::lemma_step_within(t@, b);
            }
        }
        split_tri_rec(&q0, depth - 2, out, Ghost(b2));
        split_tri_rec(&q1, depth - 2, out, Ghost(b2));
        split_tri_rec(&q2, depth - 2, out, Ghost(b2));
        split_tri_rec(&q3, depth - 2, out, Ghost(b2));
        proof {
            let d = depth as nat;
            let f = |x: SpecTri| recenter(x);
            let s0 = crate::mesh::split_tri(q0@, (d - 2) as nat);
            let s1 = crate::mesh::split_tri(q1@, (d - 2) as nat);
            let s2 = crate::mesh::split_tri(q2@, (d - 2) as nat);
            let s3 = crate::mesh::split_tri(q3@, (d - 2) as nat);
            assert(crate::mesh::split_tri(t@, d) == s0 + s1 + s2 + s3);
            assert((s0 + s1 + s2 + s3).map_values(f) =~= s0.map_values(f) + s1.map_values(f)
                + s2.map_values(f) + s3.map_values(f));
            assert(frags_view(out@) =~= frags_view(old(out)@) + frags_of_tri(t@, d));
        }
    }
}


/// The largest coordinate magnitude the splitter accepts in an input mesh.
pub const MAX_COORD: i64 = 0x4000_0000;

/// The largest fragment target the splitter accepts.
pub const MAX_TARGET: usize = 0x1000_0000;

/// Every coordinate of every fragment a split produces stays within this
/// bound: six times the input bound, doubled at most fourteen times.
pub const FRAG_LIMIT: i64 = 0x8000_0000_0000;

/// The result of one split: the fragments, the subdivision depth used, and
/// the number of stored units per input coordinate unit (`3 * 2^halvings`,
/// from the tripled re-centering scale and one doubling per halving).
#[derive(Debug, PartialEq)]
pub struct SplitOutput {
    pub fragments: Vec<Fragment>,
    pub depth: usize,
    pub denom: i64,
}

/// The number of indices the splitter will walk: the index buffer's length,
/// or the synthesized identity buffer's (one index per vertex).
pub open spec fn mesh_index_count(m: Mesh) -> nat {
    match m.indices {
        Some(ix) => ix@.len(),
        None => match m.position {
            Some(VertexAttributeValues::X3(ps)) => ps@.len(),
            _ => 0,
        },
    }
}

/// Which error, if any, a mesh is rejected with, in the order the checks run:
/// topology, position attribute, index count, texture attribute.
pub open spec fn mesh_check(m: Mesh) -> Result<(), DespawnParticlesError> {
    if m.topology != PrimitiveTopology::TriangleList {
        Err(DespawnParticlesError::UnexpectedMeshTopology)
    } else if m.position is None {
        Err(DespawnParticlesError::MeshMissingPositionAttribute)
    } else if !(m.position matches Some(VertexAttributeValues::X3(_))) {
        Err(DespawnParticlesError::UnexpectedMeshPositionAttributeFormat)
    } else if mesh_index_count(m) % 3 != 0 {
        Err(DespawnParticlesError::InvalidIndexCount(mesh_index_count(m) as usize))
    } else if m.uv is None {
        Err(DespawnParticlesError::MeshMissingUvAttribute)
    } else if !(m.uv matches Some(VertexAttributeValues::X2(_))) {
        Err(DespawnParticlesError::UnexpectedMeshUvAttributeFormat)
    } else {
        Ok(())
    }
}

/// The mesh's position buffer (empty unless well-formed).
pub open spec fn mesh_positions(m: Mesh) -> Seq<Vec3> {
    match m.position {
        Some(VertexAttributeValues::X3(ps)) => ps@,
        _ => Seq::empty(),
    }
}

/// The mesh's texture-coordinate buffer (empty unless well-formed).
pub open spec fn mesh_uvs(m: Mesh) -> Seq<Vec2> {
    match m.uv {
        Some(VertexAttributeValues::X2(us)) => us@,
        _ => Seq::empty(),
    }
}

/// The mesh's normal buffer, when present in three-component form; anything
/// else falls back to the flat `+z` unit normal.
pub open spec fn mesh_normals(m: Mesh) -> Option<Seq<Vec3>> {
    match m.normal {
        Some(VertexAttributeValues::X3(ns)) => Some(ns@),
        _ => None,
    }
}

/// The index buffer the splitter walks: the mesh's own, or the identity.
pub open spec fn mesh_index_seq(m: Mesh) -> Seq<int> {
    match m.indices {
        Some(ix) => ix@.map_values(|u: usize| u as int),
        None => Seq::new(mesh_positions(m).len(), |i: int| i),
    }
}

/// The normal at one vertex: the buffer's entry, or flat `+z`.
pub open spec fn mesh_normal_at(m: Mesh, i: int) -> SpecVec3 {
    match mesh_normals(m) {
        Some(ns) => ns[i]@,
        None => SpecVec3 { x: 0, y: 0, z: FP_ONE as int },
    }
}

/// The vertex a mesh index denotes.
pub open spec fn mesh_vertex(m: Mesh, i: int) -> SpecVertex {
    SpecVertex { pos: mesh_positions(m)[i]@, uv: mesh_uvs(m)[i]@, normal: mesh_normal_at(m, i) }
}

/// The initial whole triangles: the index buffer read three at a time.
pub open spec fn mesh_tris(m: Mesh) -> Seq<SpecTri> {
    Seq::new(
        mesh_index_seq(m).len() / 3,
        |j: int|
            SpecTri {
                a: mesh_vertex(m, mesh_index_seq(m)[3 * j]),
                b: mesh_vertex(m, mesh_index_seq(m)[3 * j + 1]),
                c: mesh_vertex(m, mesh_index_seq(m)[3 * j + 2]),
            },
    )
}

/// Every index stays inside the attribute buffers it will be used with.
pub open spec fn mesh_in_range(m: Mesh) -> bool {
    forall|i: int|
        0 <= i < mesh_index_seq(m).len() ==> {
            &&& 0 <= #[trigger] mesh_index_seq(m)[i] < mesh_positions(m).len()
            &&& mesh_index_seq(m)[i] < mesh_uvs(m).len()
            &&& (mesh_normals(m) is Some ==> mesh_index_seq(m)[i] < mesh_normals(
                m,
            ).unwrap().len())
        }
}

/// Every coordinate of every attribute buffer within `b`.
pub open spec fn mesh_within(m: Mesh, b: int) -> bool {
    &&& forall|i: int|
        0 <= i < mesh_positions(m).len() ==> vec3_within(#[trigger] mesh_positions(m)[i]@, b)
    &&& forall|i: int| 0 <= i < mesh_uvs(m).len() ==> vec2_within(#[trigger] mesh_uvs(m)[i]@, b)
    &&& (mesh_normals(m) matches Some(ns) ==> forall|i: int|
        0 <= i < ns.len() ==> vec3_within(#[trigger] ns[i]@, b))
}

/// Splits a triangle-list mesh into at least `target_count` re-centered
/// fragment triangles (exactly the initial triangles when there are already
/// enough), by recursive bisection of each initial triangle to the least
/// sufficient depth. Fragment coordinates come out at `denom` stored units
/// per input unit.
pub fn split_mesh(mesh: &Mesh, target_count: usize) -> (r: Result<
    SplitOutput,
    DespawnParticlesError,
>)
    requires
        1 <= target_count <= MAX_TARGET,
        mesh_check(*mesh) is Ok ==> mesh_in_range(*mesh) && mesh_within(*mesh, MAX_COORD as int),
    ensures
        r matches Err(e) ==> mesh_check(*mesh) == Err::<(), DespawnParticlesError>(e),
        r is Ok ==> mesh_check(*mesh) is Ok,
        r matches Ok(out) ==> {
            &&& out.depth == split_depth(mesh_tris(*mesh).len(), target_count as nat)
            &&& out.fragments@.len() == mesh_tris(*mesh).len() * pow2(out.depth as nat)
            &&& mesh_tris(*mesh).len() >= 1 ==> out.fragments@.len() >= target_count
            &&& frags_view(out.fragments@) == split_frags(mesh_tris(*mesh), out.depth as nat)
            &&& out.denom == 3 * pow2(halvings(out.depth as nat))
            &&& 3 <= out.denom <= 0xc000
            &&& forall|i: int|
                0 <= i < out.fragments@.len() ==> (#[trigger] out.fragments@[i]).indices@ == seq![
                    0u32,
                    1u32,
                    2u32,
                ]
            &&& forall|i: int|
                0 <= i < out.fragments@.len() ==> crate::mesh::frag_within(
                    (#[trigger] out.fragments@[i])@,
                    FRAG_LIMIT as int,
                )
        },
{
    if mesh.topology != PrimitiveTopology::TriangleList {
        return Err(DespawnParticlesError::UnexpectedMeshTopology);
    }
    let ps: &Vec<Vec3> = match &mesh.position {
        None => {
            return Err(DespawnParticlesError::MeshMissingPositionAttribute);
        },
        Some(VertexAttributeValues::X2(_)) => {
            return Err(DespawnParticlesError::UnexpectedMeshPositionAttributeFormat);
        },
        Some(VertexAttributeValues::X3(ps)) => ps,
    };
    let mut idx: Vec<usize> = Vec::new();
    match &mesh.indices {
        Some(ix) => {
            let mut i: usize = 0;
            while i < ix.len()
                invariant
                    0 <= i <= ix.len(),
                    idx@ == ix@.take(i as int),
                decreases ix.len() - i,
            {
                idx.push(ix[i]);
                proof {
                    assert(idx@ =~= ix@.take(i + 1));
                }
                i = i + 1;
            }
            proof {
                assert(idx@ =~= ix@);
            }
        },
        None => {
            let mut i: usize = 0;
            while i < ps.len()
                invariant
                    0 <= i <= ps.len(),
                    idx@.len() == i,
                    forall|k: int| 0 <= k < i ==> #[trigger] idx@[k] == k,
                decreases ps.len() - i,
            {
                idx.push(i);
                i = i + 1;
            }
        },
    }
    proof {
        assert(idx@.map_values(|u: usize| u as int) =~= mesh_index_seq(*mesh));
        assert(idx@.len() == mesh_index_count(*mesh));
    }
    if idx.len() % 3 != 0 {
        return Err(DespawnParticlesError::InvalidIndexCount(idx.len()));
    }
    let uvs: &Vec<Vec2> = match &mesh.uv {
        None => {
            return Err(DespawnParticlesError::MeshMissingUvAttribute);
        },
        Some(VertexAttributeValues::X3(_)) => {
            return Err(DespawnParticlesError::UnexpectedMeshUvAttributeFormat);
        },
        Some(VertexAttributeValues::X2(us)) => us,
    };
    let t_count: usize = idx.len() / 3;
    proof {
        assert(mesh_tris(*mesh).len() == t_count);
    }

    // The least depth whose leaf count reaches the target.
    let mut depth: usize = 0;
    let mut cap: usize = t_count;
    proof {
        vstd::arithmetic::power2::lemma2_to64();
    }
    if cap > 0 {
        while cap < target_count
            invariant
                1 <= cap,
                target_count <= MAX_TARGET,
                cap == t_count * pow2(depth as nat),
                t_count >= 1,
                pow2(depth as nat) <= cap as int,
                split_depth(t_count as nat, target_count as nat) == depth + split_depth(
                    cap as nat,
                    target_count as nat,
                ),
            decreases (if cap < target_count {
                (target_count - cap) as int
            } else {
                0int
            }),
        {
            proof {
                crate::mesh::lemma_split_depth_step(cap as nat, target_count as nat);
                vstd::arithmetic::power2::lemma_pow2_adds(depth as nat, 1);
                vstd::arithmetic::power2::lemma2_to64();
                assert(t_count * pow2((depth + 1) as nat) == 2 * (t_count * pow2(depth as nat)))
                    by (nonlinear_arith)
                    requires
                        pow2((depth + 1) as nat) == 2 * pow2(depth as nat),
                ;
                if depth >= 64 {
                    vstd::arithmetic::power2::lemma_pow2_strictly_increases(64, depth as nat);
                    assert(false);
                }
            }
            cap = cap * 2;
            depth = depth + 1;
        }
        proof {
            assert(split_depth(cap as nat, target_count as nat) == 0);
        }
    }
    let ghost d = depth as nat;
    proof {
        assert(depth == split_depth(t_count as nat, target_count as nat));
        assert(depth <= 28) by {
            if depth > 28 {
                crate::mesh::lemma_split_depth_minimal(t_count as nat, target_count as nat);
                if depth - 1 > 28 {
                    vstd::arithmetic::power2::lemma_pow2_strictly_increases(28, (depth - 1) as nat);
                }
                assert(t_count * pow2((depth - 1) as nat) >= pow2((depth - 1) as nat))
                    by (nonlinear_arith)
                    requires
                        t_count >= 1,
                ;
            }
        }
        assert(halvings(d) <= 14);
        assert(pow2(halvings(d)) <= pow2(14)) by {
            if halvings(d) < 14 {
                vstd::arithmetic::power2::lemma_pow2_strictly_increases(halvings(d), 14);
            }
        }
        assert(MAX_COORD as int * pow2(halvings(d)) <= STORE_LIMIT as int);
        assert(6 * MAX_COORD as int * pow2(halvings(d)) <= FRAG_LIMIT as int) by (nonlinear_arith)
            requires
                pow2(halvings(d)) <= 0x4000,
        ;
    }

    // Stored units per input unit.
    let half_steps: usize = (depth + 1) / 2;
    let mut denom: i64 = 3;
    let mut k: usize = 0;
    while k < half_steps
        invariant
            0 <= k <= half_steps,
            half_steps <= 14,
            denom == 3 * pow2(k as nat),
            denom <= 3 * 0x4000,
        decreases half_steps - k,
    {
        proof {
            vstd::arithmetic::power2::lemma_pow2_adds(k as nat, 1);
            vstd::arithmetic::power2::lemma2_to64();
            if k + 1 < 14 {
                vstd::arithmetic::power2::lemma_pow2_strictly_increases((k + 1) as nat, 14);
            }
        }
        denom = denom * 2;
        k = k + 1;
    }
    proof {
        assert(denom == 3 * pow2(halvings(d)));
    }

    // Subdivide every initial triangle.
    let mut fragments: Vec<Fragment> = Vec::new();
    let mut j: usize = 0;
    while j < t_count
        invariant
            0 <= j <= t_count,
            t_count == mesh_tris(*mesh).len(),
            idx@.map_values(|u: usize| u as int) == mesh_index_seq(*mesh),
            idx@.len() == 3 * t_count,
            mesh_check(*mesh) is Ok,
            mesh_in_range(*mesh),
            mesh_within(*mesh, MAX_COORD as int),
            mesh_positions(*mesh) == ps@,
            mesh_uvs(*mesh) == uvs@,
            MAX_COORD as int * pow2(halvings(d)) <= STORE_LIMIT as int,
            d == depth as nat,
            frags_view(fragments@) == split_frags(mesh_tris(*mesh).take(j as int), d),
            fragments@.len() == j * pow2(d),
            forall|i: int|
                0 <= i < fragments@.len() ==> (#[trigger] fragments@[i]).indices@ == seq![
                    0u32,
                    1u32,
                    2u32,
                ],
            forall|i: int|
                0 <= i < fragments@.len() ==> crate::mesh::frag_within(
                    (#[trigger] fragments@[i])@,
                    6 * MAX_COORD as int * pow2(halvings(d)),
                ),
            6 * MAX_COORD as int * pow2(halvings(d)) <= FRAG_LIMIT as int,
        decreases t_count - j,
    {
        let ghost iseq = mesh_index_seq(*mesh);
        proof {
            assert(iseq[3 * j as int] == idx@[3 * j as int]);
            assert(iseq[3 * j + 1] == idx@[3 * j + 1]);
            assert(iseq[3 * j + 2] == idx@[3 * j + 2]);
        }
        let idx_len = idx.len();
        assert(3 * j + 2 < idx_len);
        let i0 = idx[3 * j];
        let i1 = idx[3 * j + 1];
        let i2 = idx[3 * j + 2];
        let tri = Triangle {
            a: vertex_fetch(mesh, ps, uvs, i0),
            b: vertex_fetch(mesh, ps, uvs, i1),
            c: vertex_fetch(mesh, ps, uvs, i2),
        };
        proof {
            assert(tri@ == mesh_tris(*mesh)[j as int]);
        }
        let ghost pre = fragments@;
        split_tri_rec(&tri, depth, &mut fragments, Ghost(MAX_COORD as int));
        proof {
            crate::mesh::lemma_split_all_snoc(mesh_tris(*mesh).take(j as int), tri@, d);
            assert(mesh_tris(*mesh).take(j + 1) =~= mesh_tris(*mesh).take(j as int).push(tri@));
            assert(frags_view(fragments@) =~= split_frags(mesh_tris(*mesh).take(j + 1), d));
            crate::mesh::lemma_split_tri_count(tri@, d);
            assert((j + 1) * pow2(d) == j * pow2(d) + pow2(d)) by (nonlinear_arith);
        }
        j = j + 1;
    }
    proof {
        assert(mesh_tris(*mesh).take(t_count as int) =~= mesh_tris(*mesh));
        crate::mesh::lemma_split_all_count(mesh_tris(*mesh), d);
        if t_count >= 1 {
            crate::mesh::lemma_split_depth_reaches(t_count as nat, target_count as nat);
        }
    }
    Ok(SplitOutput { fragments, depth, denom })
}

/// Reads one indexed vertex out of the mesh's attribute buffers, with the
/// flat `+z` default where the normal buffer is missing or malformed.
fn vertex_fetch(mesh: &Mesh, ps: &Vec<Vec3>, uvs: &Vec<Vec2>, i: usize) -> (v: Vertex)
    requires
        mesh_positions(*mesh) == ps@,
        mesh_uvs(*mesh) == uvs@,
        i < ps@.len(),
        i < uvs@.len(),
        mesh_normals(*mesh) matches Some(ns) ==> i < ns.len(),
    ensures
        v@ == mesh_vertex(*mesh, i as int),
{
    let normal: Vec3 = match &mesh.normal {
        Some(VertexAttributeValues::X3(ns)) => ns[i],
        _ => Vec3 { x: 0, y: 0, z: FP_ONE },
    };
    Vertex { pos: ps[i], uv: uvs[i], normal }
}


/// Sets up an empty spawn-order queue.
pub fn setup(_config: &DespawnParticlesConfig) -> (r: DespawnParticleQueue)
    ensures
        r.0@ == Seq::<u64>::empty(),
{
    DespawnParticleQueue(Vec::new())
}

/// How many queue entries stand above the ceiling.
pub open spec fn queue_excess(len: int, max: int) -> int {
    if len > max {
        len - max
    } else {
        0
    }
}

/// The queued identifiers the capacity check will force-despawn: the oldest
/// `excess` entries that still denote live particles (stale entries among
/// them are simply dropped).
pub open spec fn evicted(q: Seq<u64>, live: Seq<u64>, excess: int) -> Seq<u64> {
    q.take(excess).filter(|id: u64| live.contains(id))
}

/// Whether an identifier denotes a live particle.
fn contains_id(live: &Vec<u64>, id: u64) -> (r: bool)
    ensures
        r == live@.contains(id),
{
    let mut i: usize = 0;
    while i < live.len()
        invariant
            0 <= i <= live@.len(),
            forall|k: int| 0 <= k < i ==> live@[k] != id,
        decreases live@.len() - i,
    {
        if live[i] == id {
            return true;
        }
        i = i + 1;
    }
    false
}

/// The capacity check, run every tick: while the queue stands over the
/// ceiling, pop the oldest identifier; if it still denotes a live particle,
/// force-despawn it (bypassing its remaining lifetime), and drop it silently
/// otherwise. Eviction walks only the excess, oldest first, so the live count
/// converges to the ceiling within one pass. Returns the identifiers to
/// despawn.
pub fn max_particles_check(
    config: &DespawnParticlesConfig,
    particle_queue: &mut DespawnParticleQueue,
    live: &Vec<u64>,
) -> (despawned: Vec<u64>)
    ensures
        final(particle_queue).0@ == old(particle_queue).0@.skip(
            queue_excess(old(particle_queue).0@.len() as int, config.max_particles as int),
        ),
        despawned@ == evicted(
            old(particle_queue).0@,
            live@,
            queue_excess(old(particle_queue).0@.len() as int, config.max_particles as int),
        ),
        old(particle_queue).0@.len() > config.max_particles ==> final(particle_queue).0@.len()
            == config.max_particles,
        old(particle_queue).0@.len() <= config.max_particles ==> final(particle_queue).0@
            == old(particle_queue).0@,
{
    let ghost q0 = particle_queue.0@;
    let qlen = particle_queue.0.len();
    let excess: usize = if qlen > config.max_particles {
        qlen - config.max_particles
    } else {
        0
    };
    let ghost pred = |id: u64| live@.contains(id);
    let mut despawned: Vec<u64> = Vec::new();
    proof {
        assert(q0.take(0) =~= Seq::<u64>::empty());
        reveal(Seq::filter);
    }
    let mut i: usize = 0;
    while i < excess
        invariant
            0 <= i <= excess,
            excess <= q0.len(),
            particle_queue.0@ == q0.skip(i as int),
            despawned@ == q0.take(i as int).filter(pred),
            pred == (|id: u64| live@.contains(id)),
        decreases excess - i,
    {
        let id = particle_queue.0.remove(0);
        proof {
            assert(q0.skip(i as int)[0] == q0[i as int]);
            assert(q0.skip(i as int).remove(0) =~= q0.skip(i + 1));
        }
        if contains_id(live, id) {
            despawned.push(id);
        }
        proof {
            reveal(Seq::filter);
            let taken = q0.take(i + 1);
            assert(taken.drop_last() =~= q0.take(i as int));
            assert(taken.last() == q0[i as int]);
            assert(despawned@ == q0.take(i + 1).filter(pred));
        }
        i = i + 1;
    }
    proof {
        assert(despawned@ == evicted(q0, live@, queue_excess(q0.len() as int, config.max_particles as int)));
    }
    despawned
}


/// A particle's visual payload: the dynamic textured material, or a flat
/// tint with the alpha it had at spawn time.
#[derive(Debug)]
pub enum ParticleVisual {
    Textured(DespawnMaterial),
    Flat { color: Color, original_alpha: OriginalAlpha },
}

impl ParticleVisual {
    /// Well-formed payloads keep their colors and percentages displayable.
    pub open spec fn wf(&self) -> bool {
        match *self {
            ParticleVisual::Textured(m) => m.wf(),
            ParticleVisual::Flat { color, original_alpha } => color.wf() && 0 <= original_alpha.0
                <= FP_ONE,
        }
    }
}

/// A timer after one tick: advanced by the delta, clamped at its duration.
pub open spec fn ticked(t: Timer, delta_us: u64) -> Timer {
    Timer {
        elapsed_us: if t.elapsed_us + delta_us > t.duration_us {
            t.duration_us
        } else {
            (t.elapsed_us + delta_us) as u64
        },
        duration_us: t.duration_us,
    }
}

/// The unexpired share of a timer's lifetime, in fixed-point units.
pub open spec fn percent_remaining(t: Timer) -> int {
    div_trunc((t.duration_us - t.elapsed_us) * FP_ONE as int, t.duration_us as int)
}

/// One aging tick for one particle: advance its countdown; report whether it
/// expired (the caller then despawns it, synchronously with this tick); if it
/// fades, set the textured material's alpha to the remaining fraction or
/// scale the flat tint's spawn-time alpha by it; if it shrinks, set the
/// uniform scale to the remaining fraction. Placement is never touched here.
pub fn handle_despawn_particle(
    particle: &mut DespawnParticle,
    transform: &mut Transform,
    visual: &mut ParticleVisual,
    shrink: bool,
    fade: bool,
    delta_us: u64,
) -> (expired: bool)
    requires
        old(particle).lifetime.wf(),
        old(visual).wf(),
    ensures
        final(particle).lifetime == ticked(old(particle).lifetime, delta_us),
        final(particle).lifetime.wf(),
        final(visual).wf(),
        expired == (final(particle).lifetime.elapsed_us == final(particle).lifetime.duration_us),
        ({
            let percent = percent_remaining(final(particle).lifetime);
            &&& (match (fade, *old(visual), *final(visual)) {
                (true, ParticleVisual::Textured(m0), ParticleVisual::Textured(m1)) => m1 == (
                DespawnMaterial { alpha: percent as i64, ..m0 }),
                (true, ParticleVisual::Flat { color: c0, original_alpha: a0 }, ParticleVisual::Flat { color: c1, original_alpha: a1 }) => {
                    &&& a1 == a0
                    &&& c1 == (Color {
                        a: div_trunc(a0.0 * percent, FP_ONE as int) as i64,
                        ..c0
                    })
                },
                (false, v0, v1) => v1 == v0,
                _ => false,
            })
            &&& (if shrink {
                *final(transform) == (Transform {
                    scale: crate::utils::Vec3 {
                        x: percent as i64,
                        y: percent as i64,
                        z: percent as i64,
                    },
                    ..*old(transform)
                })
            } else {
                *final(transform) == *old(transform)
            })
        }),
{
    particle.lifetime.tick(delta_us);
    let expired = particle.lifetime.finished();
    let percent: i64 = particle.lifetime.fraction_remaining();
    if fade {
        match visual {
            ParticleVisual::Textured(m) => {
                m.alpha = percent;
            },
            ParticleVisual::Flat { color, original_alpha } => {
                proof {
                    crate::utils::lemma_mul_bound(
                        original_alpha.0 as int,
                        percent as int,
                        FP_ONE as int,
                        FP_ONE as int,
                    );
                    crate::utils::lemma_div_trunc_bound(
                        original_alpha.0 as int * percent as int,
                        FP_ONE as int,
                        FP_ONE as int * FP_ONE as int,
                    );
                    vstd::arithmetic::div_mod::lemma_div_multiples_vanish(
                        FP_ONE as int,
                        FP_ONE as int,
                    );
                    assert(FP_ONE as int * FP_ONE as int == FP_ONE as int * FP_ONE as int);
                }
                let scaled: i64 = div_fp(
                    (original_alpha.0 as i128) * (percent as i128),
                    FP_ONE as i128,
                ) as i64;
                proof {
                    if original_alpha.0 as int * percent as int >= 0 {
                        vstd::arithmetic::div_mod::lemma_div_pos_is_pos(
                            original_alpha.0 as int * percent as int,
                            FP_ONE as int,
                        );
                    }
                }
                color.a = scaled;
            },
        }
    }
    if shrink {
        transform.scale = crate::utils::Vec3 { x: percent, y: percent, z: percent };
    }
    expired
}


/// A sub-rectangle of a texture atlas, in pixels.
#[derive(Clone, Copy, PartialEq, Eq, Structural, Debug)]
pub struct Rect {
    pub min: Vec2,
    pub size: Vec2,
}

/// What the host knows about a sprite on the target: the image handle, the
/// image's pixel size if the handle is still live, the atlas sub-rectangle if
/// the sprite is part of one, and the sprite's custom display size.
#[derive(Clone, Copy, PartialEq, Eq, Structural, Debug)]
pub struct SpriteInfo {
    pub image_handle: u64,
    pub image_size: Option<Vec2>,
    pub atlas_rect: Option<Rect>,
    pub custom_size: Option<Vec2>,
}

impl SpriteInfo {
    /// Sizes positive and bounded; an atlas rectangle lies inside its image.
    pub open spec fn wf(&self) -> bool {
        &&& (self.image_size matches Some(sz) ==> 1 <= sz.x <= MAX_COORD && 1 <= sz.y <= MAX_COORD)
        &&& (self.atlas_rect matches Some(r) ==> 0 <= r.min.x && 0 <= r.min.y && 1 <= r.size.x
            && 1 <= r.size.y)
        &&& (self.atlas_rect matches Some(r) ==> self.image_size matches Some(sz) && r.min.x
            + r.size.x <= sz.x && r.min.y + r.size.y <= sz.y)
        &&& (self.custom_size matches Some(c) ==> 0 <= c.x <= MAX_COORD && 0 <= c.y <= MAX_COORD)
    }
}

/// What the host knows about a mesh visual on the target.
#[derive(Clone, Copy, PartialEq, Eq, Structural, Debug)]
pub struct MeshVisualInfo {
    pub mesh_handle: u64,
    pub color: Option<Color>,
}

/// The target's global placement, decomposed by the host: translation, the
/// rotation angle about the forward axis together with its fixed-point cosine
/// and sine, and scale.
#[derive(Clone, Copy, PartialEq, Eq, Structural, Debug)]
pub struct TransformInfo {
    pub translation: Vec3,
    pub rot_angle: i64,
    pub rot_cos: i64,
    pub rot_sin: i64,
    pub scale: Vec3,
}

impl TransformInfo {
    /// Magnitudes the placement arithmetic accepts.
    pub open spec fn wf(&self) -> bool {
        &&& -TRANS_LIMIT <= self.translation.x <= TRANS_LIMIT
        &&& -TRANS_LIMIT <= self.translation.y <= TRANS_LIMIT
        &&& -TRANS_LIMIT <= self.translation.z <= TRANS_LIMIT
        &&& -FP_ONE <= self.rot_cos <= FP_ONE
        &&& -FP_ONE <= self.rot_sin <= FP_ONE
        &&& -PHYS_LIMIT <= self.scale.x <= PHYS_LIMIT
        &&& -PHYS_LIMIT <= self.scale.y <= PHYS_LIMIT
        &&& -PHYS_LIMIT <= self.scale.z <= PHYS_LIMIT
    }
}

/// Everything the factory reads about the target, gathered by the host in
/// plain values.
#[derive(Clone, Copy, PartialEq, Eq, Structural, Debug)]
pub struct TargetInfo {
    pub exists: bool,
    pub no_despawn_animation: bool,
    pub sprite: Option<SpriteInfo>,
    pub mesh2d: Option<MeshVisualInfo>,
    pub global_transform: Option<TransformInfo>,
    pub velocity: Option<Velocity>,
    pub mesh_override: Option<u64>,
}

impl TargetInfo {
    /// Every part within the bounds the arithmetic accepts.
    pub open spec fn wf(&self) -> bool {
        &&& (self.sprite matches Some(si) ==> si.wf())
        &&& (self.mesh2d matches Some(mi) ==> (mi.color matches Some(c) ==> c.wf()))
        &&& (self.global_transform matches Some(ti) ==> ti.wf())
        &&& (self.velocity matches Some(v) ==> {
            &&& -PHYS_LIMIT <= v.linvel.x <= PHYS_LIMIT
            &&& -PHYS_LIMIT <= v.linvel.y <= PHYS_LIMIT
            &&& -PHYS_LIMIT <= v.angvel <= PHYS_LIMIT
        })
    }
}

/// The resolved description of what the target looked like: an image region
/// (pixel offset and size inside a possibly larger texture, plus the sprite's
/// custom display size), or a mesh with a flat tint.
#[derive(Clone, Copy, PartialEq, Eq, Structural, Debug)]
pub enum SourceVisual {
    ImageRegion {
        image_handle: u64,
        offset: Vec2,
        input_size: Vec2,
        texture_size: Vec2,
        custom_size: Option<Vec2>,
    },
    FlatMesh { mesh_handle: u64, color: Color },
}

/// The grayscale counterpart of a color: the luminance mix in every channel,
/// alpha kept.
pub open spec fn gray_of(c: Color) -> Color {
    Color { r: luminance(c) as i64, g: luminance(c) as i64, b: luminance(c) as i64, a: c.a }
}

/// Which visual a target resolves to: an image-backed sprite is preferred
/// (failing with `InvalidImageHandle` on a stale image); otherwise a mesh
/// with its tint, pre-grayscaled when asked; otherwise the target has nothing
/// to fragment.
pub open spec fn resolve_visual(t: TargetInfo, gray: bool) -> Result<
    SourceVisual,
    DespawnParticlesError,
> {
    match t.sprite {
        Some(si) => match si.image_size {
            None => Err(DespawnParticlesError::InvalidImageHandle),
            Some(sz) => {
                let (input_size, offset) = match si.atlas_rect {
                    Some(r) => (r.size, r.min),
                    None => (sz, Vec2 { x: 0, y: 0 }),
                };
                Ok(
                    SourceVisual::ImageRegion {
                        image_handle: si.image_handle,
                        offset,
                        input_size,
                        texture_size: sz,
                        custom_size: si.custom_size,
                    },
                )
            },
        },
        None => match t.mesh2d {
            Some(mi) => {
                let base = match mi.color {
                    Some(c) => c,
                    None => Color { r: 500_000, g: 500_000, b: 500_000, a: FP_ONE },
                };
                let tint = if gray {
                    gray_of(base)
                } else {
                    base
                };
                Ok(SourceVisual::FlatMesh { mesh_handle: mi.mesh_handle, color: tint })
            },
            None => Err(DespawnParticlesError::EntityMissingComponents),
        },
    }
}

/// Resolves the target's visual, preferring an image-backed sprite over a
/// tinted mesh.
pub fn resolve_source_visual(t: &TargetInfo, gray: bool) -> (r: Result<
    SourceVisual,
    DespawnParticlesError,
>)
    requires
        t.wf(),
    ensures
        r == resolve_visual(*t, gray),
        r matches Ok(v) ==> source_visual_wf(v),
{
    match &t.sprite {
        Some(si) => match si.image_size {
            None => Err(DespawnParticlesError::InvalidImageHandle),
            Some(sz) => {
                let (input_size, offset) = match si.atlas_rect {
                    Some(r) => (r.size, r.min),
                    None => (sz, Vec2 { x: 0, y: 0 }),
                };
                Ok(
                    SourceVisual::ImageRegion {
                        image_handle: si.image_handle,
                        offset,
                        input_size,
                        texture_size: sz,
                        custom_size: si.custom_size,
                    },
                )
            },
        },
        None => match &t.mesh2d {
            Some(mi) => {
                let base = match mi.color {
                    Some(c) => c,
                    None => Color::gray(),
                };
                let tint = if gray {
                    grayscale(&base)
                } else {
                    base
                };
                Ok(SourceVisual::FlatMesh { mesh_handle: mi.mesh_handle, color: tint })
            },
            None => Err(DespawnParticlesError::EntityMissingComponents),
        },
    }
}

/// A resolved visual whose magnitudes the placement arithmetic accepts.
pub open spec fn source_visual_wf(v: SourceVisual) -> bool {
    match v {
        SourceVisual::ImageRegion { offset, input_size, texture_size, custom_size, .. } => {
            &&& 0 <= offset.x && 0 <= offset.y
            &&& 1 <= input_size.x <= MAX_COORD && 1 <= input_size.y <= MAX_COORD
            &&& 1 <= texture_size.x <= MAX_COORD && 1 <= texture_size.y <= MAX_COORD
            &&& offset.x + input_size.x <= texture_size.x
            &&& offset.y + input_size.y <= texture_size.y
            &&& (custom_size matches Some(c) ==> 0 <= c.x <= MAX_COORD && 0 <= c.y <= MAX_COORD)
        },
        SourceVisual::FlatMesh { color, .. } => color.wf(),
    }
}


/// The value a scalar property yields at sampling state `s`.
pub open spec fn prop_value(p: Property, s: u64) -> int {
    match p {
        Property::Fixed(v) => v as int,
        Property::Range(lo, hi) => crate::events::in_range_i64(next_state(s), lo, hi),
    }
}

/// The sampling state after drawing a scalar property once.
pub open spec fn prop_next(p: Property, s: u64) -> u64 {
    match p {
        Property::Fixed(_) => s,
        Property::Range(_, _) => next_state(s),
    }
}

/// The planar property's components at sampling state `s` (`x` drawn first).
pub open spec fn vec2prop_value(p: Vec2Property, s: u64) -> (int, int) {
    match p {
        Vec2Property::Fixed(v) => (v.x as int, v.y as int),
        Vec2Property::Range(lo, hi) => (
            crate::events::in_range_i64(next_state(s), lo.x, hi.x),
            crate::events::in_range_i64(next_state(next_state(s)), lo.y, hi.y),
        ),
    }
}

/// The sampling state after drawing a planar property.
pub open spec fn vec2prop_next(p: Vec2Property, s: u64) -> u64 {
    match p {
        Vec2Property::Fixed(_) => s,
        Vec2Property::Range(_, _) => next_state(next_state(s)),
    }
}

/// The value a count property yields at sampling state `s`.
pub open spec fn count_value(p: CountProperty, s: u64) -> int {
    match p {
        CountProperty::Fixed(v) => v as int,
        CountProperty::Range(lo, hi) => crate::events::in_range_usize(next_state(s), lo, hi),
    }
}

/// The sampling state after drawing a count property.
pub open spec fn count_next(p: CountProperty, s: u64) -> u64 {
    match p {
        CountProperty::Fixed(_) => s,
        CountProperty::Range(_, _) => next_state(s),
    }
}

/// The sampling state after one fragment's draws, in order: linear speed,
/// additive velocity, lifetime, angular velocity, linear damping, angular
/// damping, mass.
pub open spec fn frag_end_state(e: DespawnParticlesEvent, s: u64) -> u64 {
    let s1 = prop_next(e.linvel, s);
    let s2 = vec2prop_next(e.linvel_addtl, s1);
    let s3 = prop_next(e.lifetime, s2);
    let s4 = prop_next(e.angvel, s3);
    let s5 = prop_next(e.linear_damping, s4);
    let s6 = prop_next(e.angular_damping, s5);
    prop_next(e.mass, s6)
}

/// The sampling state when fragment `i` starts drawing.
pub open spec fn frag_state(e: DespawnParticlesEvent, s: u64, i: nat) -> u64
    decreases i,
{
    if i == 0 {
        s
    } else {
        frag_end_state(e, frag_state(e, s, (i - 1) as nat))
    }
}

/// The two triangles of an axis-aligned rectangle of the given pixel size,
/// centered on the origin, with texture coordinates covering the unit square
/// and flat `+z` normals: what an image region is fragmented as.
pub open spec fn rect_tris(size: Vec2) -> Seq<SpecTri> {
    let hx = size.x as int / 2;
    let hy = size.y as int / 2;
    let n = SpecVec3 { x: 0, y: 0, z: FP_ONE as int };
    let bl = SpecVertex {
        pos: SpecVec3 { x: -hx, y: -hy, z: 0 },
        uv: SpecVec2 { x: 0, y: FP_ONE as int },
        normal: n,
    };
    let br = SpecVertex {
        pos: SpecVec3 { x: size.x - hx, y: -hy, z: 0 },
        uv: SpecVec2 { x: FP_ONE as int, y: FP_ONE as int },
        normal: n,
    };
    let tr = SpecVertex {
        pos: SpecVec3 { x: size.x - hx, y: size.y - hy, z: 0 },
        uv: SpecVec2 { x: FP_ONE as int, y: 0 },
        normal: n,
    };
    let tl = SpecVertex {
        pos: SpecVec3 { x: -hx, y: size.y - hy, z: 0 },
        uv: SpecVec2 { x: 0, y: 0 },
        normal: n,
    };
    seq![SpecTri { a: bl, b: br, c: tr }, SpecTri { a: bl, b: tr, c: tl }]
}

/// Builds the rectangle mesh an image region is fragmented as: four corner
/// vertices, two triangles, unit-square texture coordinates, flat normals.
fn make_rect_mesh(size: Vec2) -> (r: Mesh)
    requires
        1 <= size.x <= MAX_COORD,
        1 <= size.y <= MAX_COORD,
    ensures
        mesh_check(r) is Ok,
        mesh_in_range(r),
        mesh_within(r, MAX_COORD as int),
        mesh_tris(r) == rect_tris(size),
{
    let hx: i64 = size.x / 2;
    let hy: i64 = size.y / 2;
    let n = Vec3 { x: 0, y: 0, z: FP_ONE };
    let mut positions: Vec<Vec3> = Vec::new();
    positions.push(Vec3 { x: -hx, y: -hy, z: 0 });
    positions.push(Vec3 { x: size.x - hx, y: -hy, z: 0 });
    positions.push(Vec3 { x: size.x - hx, y: size.y - hy, z: 0 });
    positions.push(Vec3 { x: -hx, y: size.y - hy, z: 0 });
    let mut normals: Vec<Vec3> = Vec::new();
    normals.push(n);
    normals.push(n);
    normals.push(n);
    normals.push(n);
    let mut uvs: Vec<Vec2> = Vec::new();
    uvs.push(Vec2 { x: 0, y: FP_ONE });
    uvs.push(Vec2 { x: FP_ONE, y: FP_ONE });
    uvs.push(Vec2 { x: FP_ONE, y: 0 });
    uvs.push(Vec2 { x: 0, y: 0 });
    let mut indices: Vec<usize> = Vec::new();
    indices.push(0);
    indices.push(1);
    indices.push(2);
    indices.push(0);
    indices.push(2);
    indices.push(3);
    let m = Mesh {
        topology: PrimitiveTopology::TriangleList,
        position: Some(VertexAttributeValues::X3(positions)),
        normal: Some(VertexAttributeValues::X3(normals)),
        uv: Some(VertexAttributeValues::X2(uvs)),
        indices: Some(indices),
    };
    proof {
        assert(mesh_index_seq(m) =~= seq![0int, 1int, 2int, 0int, 2int, 3int]);
        assert(mesh_tris(m) =~= rect_tris(size));
    }
    m
}

/// The mesh an asset list holds under a handle: the first entry that matches.
pub open spec fn found_mesh(assets: Seq<(u64, Mesh)>, h: u64) -> Option<Mesh>
    decreases assets.len(),
{
    if assets.len() == 0 {
        None
    } else if assets[0].0 == h {
        Some(assets[0].1)
    } else {
        found_mesh(assets.drop_first(), h)
    }
}

/// A match at `i` with no earlier match is the found mesh.
proof fn lemma_found_mesh_at(assets: Seq<(u64, Mesh)>, h: u64, i: int)
    requires
        0 <= i < assets.len(),
        assets[i].0 == h,
        forall|k: int| 0 <= k < i ==> (#[trigger] assets[k]).0 != h,
    ensures
        found_mesh(assets, h) == Some(assets[i].1),
    decreases i,
{
    if i == 0 {
    } else {
        lemma_found_mesh_at(assets.drop_first(), h, i - 1);
    }
}

/// No match anywhere means nothing is found.
proof fn lemma_found_mesh_none(assets: Seq<(u64, Mesh)>, h: u64)
    requires
        forall|k: int| 0 <= k < assets.len() ==> (#[trigger] assets[k]).0 != h,
    ensures
        found_mesh(assets, h) is None,
    decreases assets.len(),
{
    if assets.len() > 0 {
        lemma_found_mesh_none(assets.drop_first(), h);
    }
}

/// Looks a mesh handle up in the host's asset list; the first match wins.
fn find_mesh(assets: &Vec<(u64, Mesh)>, h: u64) -> (r: Option<usize>)
    ensures
        match r {
            Some(i) => i < assets@.len() && assets@[i as int].0 == h && found_mesh(assets@, h)
                == Some(assets@[i as int].1),
            None => found_mesh(assets@, h) is None,
        },
{
    let mut i: usize = 0;
    while i < assets.len()
        invariant
            0 <= i <= assets@.len(),
            forall|k: int| 0 <= k < i ==> (#[trigger] assets@[k]).0 != h,
        decreases assets@.len() - i,
    {
        if assets[i].0 == h {
            proof {
                lemma_found_mesh_at(assets@, h, i as int);
            }
            return Some(i);
        }
        i = i + 1;
    }
    proof {
        lemma_found_mesh_none(assets@, h);
    }
    None
}


/// The product of two bounded values, widened so it cannot overflow.
fn mul_i128(a: i128, b: i128, Ghost(ma): Ghost<int>, Ghost(mb): Ghost<int>) -> (r: i128)
    requires
        0 <= ma,
        0 <= mb,
        -ma <= a <= ma,
        -mb <= b <= mb,
        ma * mb < 0x4000_0000_0000_0000_0000_0000_0000_0000,
    ensures
        r == a as int * b as int,
        -(ma * mb) <= r <= ma * mb,
{
    proof {
        crate::utils::lemma_mul_bound(a as int, b as int, ma, mb);
    }
    a * b
}

/// A bounded truncating quotient: the divisor's lower bound turns the
/// dividend's bound into a bound on the quotient.
fn div_bounded(a: i128, b: i128, Ghost(m): Ghost<int>, Ghost(bmin): Ghost<int>) -> (r: i128)
    requires
        1 <= bmin <= b,
        0 <= m < 0x8000_0000_0000_0000_0000_0000_0000_0000,
        -m <= a <= m,
    ensures
        r == div_trunc(a as int, b as int),
        -(m / bmin) <= r <= m / bmin,
{
    proof {
        crate::utils::lemma_div_trunc_bound(a as int, b as int, m);
        if a >= 0 {
            vstd::arithmetic::div_mod::lemma_div_is_ordered_by_denominator(m, bmin, b as int);
        } else {
            vstd::arithmetic::div_mod::lemma_div_is_ordered_by_denominator(m, bmin, b as int);
        }
    }
    div_fp(a, b)
}


/// The extra display ratio an image-backed source applies: the sprite's
/// custom size over the region's natural size, in fixed-point units (one
/// where no custom size is set).
pub open spec fn addtl_ratio(v: SourceVisual) -> (int, int) {
    match v {
        SourceVisual::ImageRegion { custom_size: Some(cs), input_size, .. } => (
            clamp_to(div_trunc(cs.x * FP_ONE as int, input_size.x as int), PHYS_LIMIT as int),
            clamp_to(div_trunc(cs.y * FP_ONE as int, input_size.y as int), PHYS_LIMIT as int),
        ),
        _ => (FP_ONE as int, FP_ONE as int),
    }
}

/// A fragment's world translation: its centroid offset (at `denom` stored
/// units per unit) rotated by the source's orientation, added to the source's
/// center, then scaled by the source's scale and, in the plane, the custom
/// display ratio; each component clamped into the integrator's range.
pub open spec fn world_translation(ti: TransformInfo, off: SpecVec3, denom: int, ar: (int, int)) -> (
    int,
    int,
    int,
) {
    let fp = FP_ONE as int;
    let rx = div_trunc(ti.rot_cos * off.x - ti.rot_sin * off.y, fp * denom);
    let ry = div_trunc(ti.rot_sin * off.x + ti.rot_cos * off.y, fp * denom);
    let rz = div_trunc(off.z, denom);
    (
        clamp_to(
            div_trunc(div_trunc((ti.translation.x + rx) * ti.scale.x, fp) * ar.0, fp),
            TRANS_LIMIT as int,
        ),
        clamp_to(
            div_trunc(div_trunc((ti.translation.y + ry) * ti.scale.y, fp) * ar.1, fp),
            TRANS_LIMIT as int,
        ),
        clamp_to(div_trunc((ti.translation.z + rz) * ti.scale.z, fp), TRANS_LIMIT as int),
    )
}

/// A fragment's launch velocity: the sampled speed aimed radially outward
/// from the source's center; unless parent physics is ignored, the source's
/// own linear velocity plus the tangential contribution of its spin
/// (`radius * angular velocity`, perpendicular to the radius); plus the
/// sampled additive velocity. A fragment at dead center fires straight along
/// `+y` (the zero-angle direction). Components clamp into the integrator's
/// range.
pub open spec fn spawn_velocity(
    ti: TransformInfo,
    pv: Velocity,
    ignore: bool,
    speed: int,
    addtl: (int, int),
    tpos: (int, int, int),
) -> (int, int) {
    let fp = FP_ONE as int;
    let dx = tpos.0 - ti.translation.x;
    let dy = tpos.1 - ti.translation.y;
    let dz = tpos.2 - ti.translation.z;
    let d2 = crate::utils::sqrt_floor(dx * dx + dy * dy);
    let d3 = crate::utils::sqrt_floor(dx * dx + dy * dy + dz * dz);
    let radx = if d2 == 0 {
        0int
    } else {
        div_trunc(speed * dx, d2)
    };
    let rady = if d2 == 0 {
        speed
    } else {
        div_trunc(speed * dy, d2)
    };
    let tq = div_trunc(d3 * pv.angvel, fp);
    let tanx = if d2 == 0 {
        -tq
    } else {
        div_trunc(-(tq * dy), d2)
    };
    let tany = if d2 == 0 {
        0int
    } else {
        div_trunc(tq * dx, d2)
    };
    let px = if ignore {
        0int
    } else {
        pv.linvel.x + tanx
    };
    let py = if ignore {
        0int
    } else {
        pv.linvel.y + tany
    };
    (
        clamp_to(radx + px + addtl.0, PHYS_LIMIT as int),
        clamp_to(rady + py + addtl.1, PHYS_LIMIT as int),
    )
}

/// A particle's scale: the source's scale with the custom display ratio
/// folded into the plane.
pub open spec fn particle_scale(ti: TransformInfo, ar: (int, int)) -> (int, int, int) {
    (
        clamp_to(div_trunc(ti.scale.x * ar.0, FP_ONE as int), TRANS_LIMIT as int),
        clamp_to(div_trunc(ti.scale.y * ar.1, FP_ONE as int), TRANS_LIMIT as int),
        ti.scale.z as int,
    )
}

/// The visual payload each particle carries: for an image region, the
/// dynamic material sampling the same sub-rectangle (as fixed-point
/// percentages of the texture), fully opaque, with the grayscale flag; for a
/// mesh, the resolved tint and its spawn-time alpha.
pub open spec fn visual_payload(v: SourceVisual, gray: bool) -> ParticleVisual {
    match v {
        SourceVisual::ImageRegion { image_handle, offset, input_size, texture_size, .. } => {
            let fp = FP_ONE as int;
            ParticleVisual::Textured(
                DespawnMaterial {
                    source_image: Some(image_handle),
                    offset: Vec2 {
                        x: div_trunc(offset.x * fp, texture_size.x as int) as i64,
                        y: div_trunc(offset.y * fp, texture_size.y as int) as i64,
                    },
                    size: Vec2 {
                        x: div_trunc(input_size.x * fp, texture_size.x as int) as i64,
                        y: div_trunc(input_size.y * fp, texture_size.y as int) as i64,
                    },
                    alpha: FP_ONE,
                    gray: if gray {
                        1
                    } else {
                        0
                    },
                    padding: 0,
                },
            )
        },
        SourceVisual::FlatMesh { color, .. } => ParticleVisual::Flat {
            color,
            original_alpha: OriginalAlpha(color.a),
        },
    }
}

/// Everything one spawned particle carries: its countdown, kinematic state,
/// placement, fragment mesh, visual payload, and effect flags.
#[derive(Debug)]
pub struct ParticleSpawn {
    pub particle: DespawnParticle,
    pub velocity: Velocity,
    pub damping: Damping,
    pub mass: AdditionalMassProperties,
    pub transform: Transform,
    pub fragment: Fragment,
    pub visual: ParticleVisual,
    pub shrink: bool,
    pub fade: bool,
}

/// What one particle spawned for fragment `f` must hold, given the request,
/// the source's placement and velocity, the resolved visual, the fragment
/// scale, and the sampling state the fragment starts at.
pub open spec fn particle_matches(
    e: DespawnParticlesEvent,
    ti: TransformInfo,
    pv: Velocity,
    visual: SourceVisual,
    f: SpecFrag,
    denom: int,
    s: u64,
    p: ParticleSpawn,
) -> bool {
    let speed = prop_value(e.linvel, s);
    let s1 = prop_next(e.linvel, s);
    let ad = vec2prop_value(e.linvel_addtl, s1);
    let s2 = vec2prop_next(e.linvel_addtl, s1);
    let lt = prop_value(e.lifetime, s2);
    let s3 = prop_next(e.lifetime, s2);
    let av = prop_value(e.angvel, s3);
    let s4 = prop_next(e.angvel, s3);
    let ld = prop_value(e.linear_damping, s4);
    let s5 = prop_next(e.linear_damping, s4);
    let ad2 = prop_value(e.angular_damping, s5);
    let s6 = prop_next(e.angular_damping, s5);
    let ms = prop_value(e.mass, s6);
    let ar = addtl_ratio(visual);
    let tp = world_translation(ti, f.offset, denom, ar);
    let vel = spawn_velocity(ti, pv, e.ignore_parent_phys, speed, ad, tp);
    let sc = particle_scale(ti, ar);
    &&& p.particle.lifetime.elapsed_us == 0 && p.particle.lifetime.duration_us == lt
    &&& p.velocity.linvel.x == vel.0 && p.velocity.linvel.y == vel.1 && p.velocity.angvel == av
    &&& p.damping.linear_damping == ld && p.damping.angular_damping == ad2
    &&& p.mass.0 == ms
    &&& p.transform.translation.x == tp.0 && p.transform.translation.y == tp.1
        && p.transform.translation.z == tp.2
    &&& p.transform.rot_angle == ti.rot_angle
    &&& p.transform.scale.x == sc.0 && p.transform.scale.y == sc.1 && p.transform.scale.z == sc.2
    &&& p.fragment@ == f
    &&& p.fragment.indices@ == seq![0u32, 1u32, 2u32]
    &&& p.shrink == e.shrink && p.fade == e.fade
    &&& p.visual == visual_payload(visual, e.gray)
}


/// Computes one particle for one fragment: samples the per-fragment
/// properties in order, places the fragment by rotating and scaling its
/// centroid offset, aims it radially outward (with the source's own motion
/// folded in unless ignored), and attaches the visual payload and flags.
#[verifier::rlimit(100)]
fn spawn_particle(
    event: &DespawnParticlesEvent,
    ti: &TransformInfo,
    pv: &Velocity,
    visual: &SourceVisual,
    frag: Fragment,
    denom: i64,
    src: &mut SampleSource,
) -> (p: ParticleSpawn)
    requires
        event.wf(),
        ti.wf(),
        source_visual_wf(*visual),
        crate::mesh::frag_within(frag@, FRAG_LIMIT as int),
        frag.indices@ == seq![0u32, 1u32, 2u32],
        3 <= denom <= 0xc000,
        -PHYS_LIMIT <= pv.linvel.x <= PHYS_LIMIT,
        -PHYS_LIMIT <= pv.linvel.y <= PHYS_LIMIT,
        -PHYS_LIMIT <= pv.angvel <= PHYS_LIMIT,
    ensures
        particle_matches(*event, *ti, *pv, *visual, frag@, denom as int, old(src).state, p),
        final(src).state == frag_end_state(*event, old(src).state),
{
    let ghost s0 = src.state;
    let fp: i128 = FP_ONE as i128;

    // Per-fragment draws, in order.
    let speed = event.linvel.get_value(src);
    let addtl = event.linvel_addtl.get_value(src);
    let lt = event.lifetime.get_value(src);
    let av = event.angvel.get_value(src);
    let ld = event.linear_damping.get_value(src);
    let ad2 = event.angular_damping.get_value(src);
    let ms = event.mass.get_value(src);
    proof {
        assert(src.state == frag_end_state(*event, s0));
        assert(-PHYS_LIMIT <= speed <= PHYS_LIMIT);
        assert(-PHYS_LIMIT <= addtl.x <= PHYS_LIMIT && -PHYS_LIMIT <= addtl.y <= PHYS_LIMIT);
        assert(1 <= lt <= crate::events::LIFETIME_LIMIT);
    }

    // The custom display ratio.
    let (arx, ary): (i64, i64) = match visual {
        SourceVisual::ImageRegion { custom_size: Some(cs), input_size, .. } => {
            let nx = mul_i128(cs.x as i128, fp, Ghost(MAX_COORD as int), Ghost(FP_ONE as int));
            let ny = mul_i128(cs.y as i128, fp, Ghost(MAX_COORD as int), Ghost(FP_ONE as int));
            let qx = div_bounded(
                nx,
                input_size.x as i128,
                Ghost(MAX_COORD as int * FP_ONE as int),
                Ghost(1),
            );
            let qy = div_bounded(
                ny,
                input_size.y as i128,
                Ghost(MAX_COORD as int * FP_ONE as int),
                Ghost(1),
            );
            (
                crate::utils::clamp_i128(qx, PHYS_LIMIT),
                crate::utils::clamp_i128(qy, PHYS_LIMIT),
            )
        },
        _ => (FP_ONE, FP_ONE),
    };
    proof {
        assert((arx as int, ary as int) == addtl_ratio(*visual));
    }

    // Placement: rotate the centroid offset, add the center, scale.
    let (tx, ty, tz) = place_fragment(ti, &frag, denom, arx, ary);

    // Launch velocity: radial, tangential, inherited, additive.
    let (velx, vely) = launch_velocity(
        ti,
        pv,
        event.ignore_parent_phys,
        speed,
        addtl,
        tx,
        ty,
        tz,
    );

    // Scale.
    let scx = crate::utils::clamp_i128(
        div_bounded(
            mul_i128(ti.scale.x as i128, arx as i128, Ghost(PHYS_LIMIT as int), Ghost(PHYS_LIMIT as int)),
            fp,
            Ghost(PHYS_LIMIT as int * PHYS_LIMIT as int),
            Ghost(FP_ONE as int),
        ),
        TRANS_LIMIT,
    );
    let scy = crate::utils::clamp_i128(
        div_bounded(
            mul_i128(ti.scale.y as i128, ary as i128, Ghost(PHYS_LIMIT as int), Ghost(PHYS_LIMIT as int)),
            fp,
            Ghost(PHYS_LIMIT as int * PHYS_LIMIT as int),
            Ghost(FP_ONE as int),
        ),
        TRANS_LIMIT,
    );

    // The visual payload.
    let pvis: ParticleVisual = match visual {
        SourceVisual::ImageRegion { image_handle, offset, input_size, texture_size, .. } => {
            let ox = ((offset.x as u64) * (FP_ONE as u64)) / (texture_size.x as u64);
            let oy = ((offset.y as u64) * (FP_ONE as u64)) / (texture_size.y as u64);
            let sx = ((input_size.x as u64) * (FP_ONE as u64)) / (texture_size.x as u64);
            let sy = ((input_size.y as u64) * (FP_ONE as u64)) / (texture_size.y as u64);
            ParticleVisual::Textured(
                DespawnMaterial {
                    source_image: Some(*image_handle),
                    offset: Vec2 { x: ox as i64, y: oy as i64 },
                    size: Vec2 { x: sx as i64, y: sy as i64 },
                    alpha: FP_ONE,
                    gray: if event.gray {
                        1
                    } else {
                        0
                    },
                    padding: 0,
                },
            )
        },
        SourceVisual::FlatMesh { color, .. } => ParticleVisual::Flat {
            color: *color,
            original_alpha: OriginalAlpha(color.a),
        },
    };
    proof {
        assert(pvis == visual_payload(*visual, event.gray));
    }

    ParticleSpawn {
        particle: DespawnParticle::new(lt as u64),
        velocity: Velocity { linvel: Vec2 { x: velx, y: vely }, angvel: av },
        damping: Damping { linear_damping: ld, angular_damping: ad2 },
        mass: AdditionalMassProperties(ms),
        transform: Transform {
            translation: Vec3 { x: tx, y: ty, z: tz },
            rot_angle: ti.rot_angle,
            scale: Vec3 { x: scx, y: scy, z: ti.scale.z },
        },
        fragment: frag,
        visual: pvis,
        shrink: event.shrink,
        fade: event.fade,
    }
}


/// Places one fragment: its centroid offset rotated by the source's
/// orientation, added to the source's center, scaled by the source's scale
/// and the custom display ratio.
fn place_fragment(ti: &TransformInfo, frag: &Fragment, denom: i64, arx: i64, ary: i64) -> (r: (
    i64,
    i64,
    i64,
))
    requires
        ti.wf(),
        crate::mesh::frag_within(frag@, FRAG_LIMIT as int),
        3 <= denom <= 0xc000,
        -PHYS_LIMIT <= arx <= PHYS_LIMIT,
        -PHYS_LIMIT <= ary <= PHYS_LIMIT,
    ensures
        (r.0 as int, r.1 as int, r.2 as int) == world_translation(
            *ti,
            frag@.offset,
            denom as int,
            (arx as int, ary as int),
        ),
        -TRANS_LIMIT <= r.0 <= TRANS_LIMIT,
        -TRANS_LIMIT <= r.1 <= TRANS_LIMIT,
        -TRANS_LIMIT <= r.2 <= TRANS_LIMIT,
{
    let fp: i128 = FP_ONE as i128;
    let ghost m_off = FRAG_LIMIT as int;
    let ghost m_rot = FP_ONE as int * m_off;
    let cox = mul_i128(ti.rot_cos as i128, frag.offset.x as i128, Ghost(FP_ONE as int), Ghost(m_off));
    let soy = mul_i128(ti.rot_sin as i128, frag.offset.y as i128, Ghost(FP_ONE as int), Ghost(m_off));
    let sox = mul_i128(ti.rot_sin as i128, frag.offset.x as i128, Ghost(FP_ONE as int), Ghost(m_off));
    let coy = mul_i128(ti.rot_cos as i128, frag.offset.y as i128, Ghost(FP_ONE as int), Ghost(m_off));
    let rx = div_bounded(cox - soy, fp * (denom as i128), Ghost(2 * m_rot), Ghost(3 * FP_ONE as int));
    let ry = div_bounded(sox + coy, fp * (denom as i128), Ghost(2 * m_rot), Ghost(3 * FP_ONE as int));
    let rz = div_bounded(frag.offset.z as i128, denom as i128, Ghost(m_off), Ghost(3));
    proof {
        assert(-0x1_0000_0000_0000_0000 <= rx <= 0x1_0000_0000_0000_0000);
        assert(-0x1_0000_0000_0000_0000 <= ry <= 0x1_0000_0000_0000_0000);
        assert(-0x1_0000_0000_0000_0000 <= rz <= 0x1_0000_0000_0000_0000);
    }
    let ghost m_cr = 0x3_0000_0000_0000_0000int;
    let ux = mul_i128(ti.translation.x as i128 + rx, ti.scale.x as i128, Ghost(m_cr), Ghost(PHYS_LIMIT as int));
    let uy = mul_i128(ti.translation.y as i128 + ry, ti.scale.y as i128, Ghost(m_cr), Ghost(PHYS_LIMIT as int));
    let uz = mul_i128(ti.translation.z as i128 + rz, ti.scale.z as i128, Ghost(m_cr), Ghost(PHYS_LIMIT as int));
    let ghost m_u = m_cr * PHYS_LIMIT as int;
    let vx = div_bounded(ux, fp, Ghost(m_u), Ghost(FP_ONE as int));
    let vy = div_bounded(uy, fp, Ghost(m_u), Ghost(FP_ONE as int));
    let ghost m_v = m_u / FP_ONE as int;
    let wx = mul_i128(vx, arx as i128, Ghost(m_v), Ghost(PHYS_LIMIT as int));
    let wy = mul_i128(vy, ary as i128, Ghost(m_v), Ghost(PHYS_LIMIT as int));
    let ghost m_w = m_v * PHYS_LIMIT as int;
    let tx = crate::utils::clamp_i128(div_bounded(wx, fp, Ghost(m_w), Ghost(FP_ONE as int)), TRANS_LIMIT);
    let ty = crate::utils::clamp_i128(div_bounded(wy, fp, Ghost(m_w), Ghost(FP_ONE as int)), TRANS_LIMIT);
    let tz = crate::utils::clamp_i128(div_bounded(uz, fp, Ghost(m_u), Ghost(FP_ONE as int)), TRANS_LIMIT);
    (tx, ty, tz)
}

/// One fragment's launch velocity from its placement: radial from the
/// source's center, plus (unless ignored) the source's own linear velocity
/// and the tangential share of its spin, plus the sampled additive velocity.
fn launch_velocity(
    ti: &TransformInfo,
    pv: &Velocity,
    ignore: bool,
    speed: i64,
    addtl: Vec2,
    tx: i64,
    ty: i64,
    tz: i64,
) -> (r: (i64, i64))
    requires
        ti.wf(),
        -PHYS_LIMIT <= pv.linvel.x <= PHYS_LIMIT,
        -PHYS_LIMIT <= pv.linvel.y <= PHYS_LIMIT,
        -PHYS_LIMIT <= pv.angvel <= PHYS_LIMIT,
        -PHYS_LIMIT <= speed <= PHYS_LIMIT,
        -PHYS_LIMIT <= addtl.x <= PHYS_LIMIT,
        -PHYS_LIMIT <= addtl.y <= PHYS_LIMIT,
        -TRANS_LIMIT <= tx <= TRANS_LIMIT,
        -TRANS_LIMIT <= ty <= TRANS_LIMIT,
        -TRANS_LIMIT <= tz <= TRANS_LIMIT,
    ensures
        (r.0 as int, r.1 as int) == spawn_velocity(
            *ti,
            *pv,
            ignore,
            speed as int,
            (addtl.x as int, addtl.y as int),
            (tx as int, ty as int, tz as int),
        ),
{
    let fp: i128 = FP_ONE as i128;
    let dx: i64 = tx - ti.translation.x;
    let dy: i64 = ty - ti.translation.y;
    let dz: i64 = tz - ti.translation.z;
    let ghost m_d = 2 * TRANS_LIMIT as int;
    let dxx = mul_i128(dx as i128, dx as i128, Ghost(m_d), Ghost(m_d));
    let dyy = mul_i128(dy as i128, dy as i128, Ghost(m_d), Ghost(m_d));
    let dzz = mul_i128(dz as i128, dz as i128, Ghost(m_d), Ghost(m_d));
    proof {
        assert(dxx >= 0 && dyy >= 0 && dzz >= 0) by (nonlinear_arith)
            requires
                dxx == dx as int * dx as int,
                dyy == dy as int * dy as int,
                dzz == dz as int * dz as int,
        ;
        assert(m_d * m_d == 0x4000_0000_0000_0000_0000_0000int) by (nonlinear_arith)
            requires
                m_d == 0x8000_0000_0000int,
        ;
        assert(dxx <= 0x4000_0000_0000_0000_0000_0000int);
        assert(dyy <= 0x4000_0000_0000_0000_0000_0000int);
        assert(dzz <= 0x4000_0000_0000_0000_0000_0000int);
    }
    let n2: u128 = (dxx + dyy) as u128;
    let n3: u128 = (dxx + dyy + dzz) as u128;
    let d2u = isqrt(n2);
    let d3u = isqrt(n3);
    proof {
        crate::utils::lemma_sqrt_floor_is(n2 as int, d2u as int);
        crate::utils::lemma_sqrt_floor_is(n3 as int, d3u as int);
        assert(n2 == dxx + dyy);
        assert(n3 == dxx + dyy + dzz);
        assert(n2 <= 0x1_0000_0000_0000_0000_0000_0000u128);
        assert(n3 <= 0x1_0000_0000_0000_0000_0000_0000u128);
        assert(d2u <= 0x1_0000_0000_0000 && d3u <= 0x1_0000_0000_0000) by (nonlinear_arith)
            requires
                d2u * d2u <= n2,
                d3u * d3u <= n3,
                n2 <= 0x1_0000_0000_0000_0000_0000_0000u128,
                n3 <= 0x1_0000_0000_0000_0000_0000_0000u128,
        ;
        assert(0 <= d2u && 0 <= d3u);
    }
    let d2: i128 = d2u as i128;
    let d3: i128 = d3u as i128;
    let ghost m_sq = 0x1_0000_0000_0000int;
    let (radx, rady): (i128, i128) = if d2 == 0 {
        (0, speed as i128)
    } else {
        (
            div_bounded(
                mul_i128(speed as i128, dx as i128, Ghost(PHYS_LIMIT as int), Ghost(m_d)),
                d2,
                Ghost(PHYS_LIMIT as int * m_d),
                Ghost(1),
            ),
            div_bounded(
                mul_i128(speed as i128, dy as i128, Ghost(PHYS_LIMIT as int), Ghost(m_d)),
                d2,
                Ghost(PHYS_LIMIT as int * m_d),
                Ghost(1),
            ),
        )
    };
    let tq = div_bounded(
        mul_i128(d3, pv.angvel as i128, Ghost(m_sq), Ghost(PHYS_LIMIT as int)),
        fp,
        Ghost(m_sq * PHYS_LIMIT as int),
        Ghost(FP_ONE as int),
    );
    let ghost m_tq = m_sq * PHYS_LIMIT as int / FP_ONE as int;
    let (tanx, tany): (i128, i128) = if d2 == 0 {
        (-tq, 0)
    } else {
        (
            div_bounded(
                -mul_i128(tq, dy as i128, Ghost(m_tq), Ghost(m_d)),
                d2,
                Ghost(m_tq * m_d),
                Ghost(1),
            ),
            div_bounded(
                mul_i128(tq, dx as i128, Ghost(m_tq), Ghost(m_d)),
                d2,
                Ghost(m_tq * m_d),
                Ghost(1),
            ),
        )
    };
    let (px, py): (i128, i128) = if ignore {
        (0, 0)
    } else {
        (pv.linvel.x as i128 + tanx, pv.linvel.y as i128 + tany)
    };
    let velx = crate::utils::clamp_i128(radx + px + addtl.x as i128, PHYS_LIMIT);
    let vely = crate::utils::clamp_i128(rady + py + addtl.y as i128, PHYS_LIMIT);
    proof {
        let vel = spawn_velocity(
            *ti,
            *pv,
            ignore,
            speed as int,
            (addtl.x as int, addtl.y as int),
            (tx as int, ty as int, tz as int),
        );
        assert(velx == vel.0 && vely == vel.1);
    }

    (velx, vely)
}

/// Everything the host must apply for one handled request: whether (and how)
/// the target is removed, and the particles to spawn. The host registers each
/// spawned particle's identifier with the spawn-order queue, in order.
#[derive(Debug)]
pub struct SpawnPlan {
    pub target_despawned: bool,
    pub recurse: bool,
    pub particles: Vec<ParticleSpawn>,
}

/// Which mesh the request fragments: an explicit per-request override first,
/// then a per-object override, then the resolved visual's own mesh; an image
/// region without an override becomes a rectangle mesh sized to the region.
pub open spec fn chosen_handle(e: DespawnParticlesEvent, t: TargetInfo, visual: SourceVisual) -> Option<
    u64,
> {
    if e.mesh_override is Some {
        e.mesh_override
    } else if t.mesh_override is Some {
        t.mesh_override
    } else {
        match visual {
            SourceVisual::FlatMesh { mesh_handle, .. } => Some(mesh_handle),
            SourceVisual::ImageRegion { .. } => None,
        }
    }
}

/// Every mesh in the host's asset list is one the splitter accepts whenever
/// its own checks pass.
pub open spec fn assets_wf(assets: Seq<(u64, Mesh)>) -> bool {
    forall|k: int|
        0 <= k < assets.len() ==> (mesh_check((#[trigger] assets[k]).1) is Ok ==> mesh_in_range(
            assets[k].1,
        ) && mesh_within(assets[k].1, MAX_COORD as int))
}

/// What handling one request from the splitting step on must yield, given
/// the mesh's own check result and its initial triangles.
pub open spec fn split_outcome(
    e: DespawnParticlesEvent,
    t: TargetInfo,
    visual: SourceVisual,
    check: Result<(), DespawnParticlesError>,
    tris: Seq<SpecTri>,
    target: int,
    s1: u64,
    s_end: u64,
    r: Result<SpawnPlan, DespawnParticlesError>,
) -> bool {
    match check {
        Err(err) => r == Err::<SpawnPlan, DespawnParticlesError>(err) && s_end == s1,
        Ok(_) => {
            let d = split_depth(tris.len(), target as nat);
            let denom = 3 * pow2(halvings(d)) as int;
            let frags = split_frags(tris, d);
            match t.global_transform {
                None => r matches Ok(p) && p.target_despawned && p.recurse == e.recurse
                    && p.particles@.len() == 0 && s_end == s1,
                Some(ti) => {
                    let pv = match t.velocity {
                        Some(v) => v,
                        None => Velocity { angvel: 0, linvel: Vec2 { x: 0, y: 0 } },
                    };
                    &&& r matches Ok(p) && {
                        &&& p.target_despawned
                        &&& p.recurse == e.recurse
                        &&& p.particles@.len() == frags.len()
                        &&& forall|i: int|
                            0 <= i < frags.len() ==> particle_matches(
                                e,
                                ti,
                                pv,
                                visual,
                                frags[i],
                                denom,
                                frag_state(e, s1, i as nat),
                                #[trigger] p.particles@[i],
                            )
                    }
                    &&& s_end == frag_state(e, s1, frags.len())
                },
            }
        },
    }
}

/// What handling one despawn request must yield: the fragment-count draw
/// happens first; a missing target ends the request quietly; an existing
/// target is always removed (recursively when asked), even when a later step
/// fails; a no-animation marker stops after the removal; otherwise the visual
/// resolves (or the request fails), the mesh to fragment is chosen and found
/// (or the request fails), the mesh splits (or its defect is reported), and
/// one particle is planned per fragment --- unless the target has no known
/// placement, in which case none are.
pub open spec fn event_outcome(
    e: DespawnParticlesEvent,
    t: TargetInfo,
    assets: Seq<(u64, Mesh)>,
    s0: u64,
    s_end: u64,
    r: Result<SpawnPlan, DespawnParticlesError>,
) -> bool {
    let target = count_value(e.target_num_particles, s0);
    let s1 = count_next(e.target_num_particles, s0);
    if !t.exists {
        r matches Ok(p) && !p.target_despawned && p.particles@.len() == 0 && s_end == s1
    } else if t.no_despawn_animation {
        r matches Ok(p) && p.target_despawned && p.recurse == e.recurse && p.particles@.len() == 0
            && s_end == s1
    } else {
        match resolve_visual(t, e.gray) {
            Err(err) => r == Err::<SpawnPlan, DespawnParticlesError>(err) && s_end == s1,
            Ok(visual) => match chosen_handle(e, t, visual) {
                Some(h) => match found_mesh(assets, h) {
                    None => r == Err::<SpawnPlan, DespawnParticlesError>(
                        DespawnParticlesError::InvalidMeshHandle,
                    ) && s_end == s1,
                    Some(m) => split_outcome(
                        e,
                        t,
                        visual,
                        mesh_check(m),
                        mesh_tris(m),
                        target,
                        s1,
                        s_end,
                        r,
                    ),
                },
                None => {
                    let size = match visual {
                        SourceVisual::ImageRegion { input_size, .. } => input_size,
                        SourceVisual::FlatMesh { .. } => Vec2 { x: 0, y: 0 },
                    };
                    split_outcome(
                        e,
                        t,
                        visual,
                        Ok(()),
                        rect_tris(size),
                        target,
                        s1,
                        s_end,
                        r,
                    )
                },
            },
        }
    }
}

/// Handles one despawn request: removes the target (the host applies the
/// returned plan; on an error the host still removes it and logs the error),
/// resolves its visual, fragments the chosen mesh, and plans one particle per
/// fragment with sampled motion and lifetime. Every failure is local to this
/// one request.
pub fn handle_despawn_particles_event(
    event: &DespawnParticlesEvent,
    target: &TargetInfo,
    assets: &Vec<(u64, Mesh)>,
    src: &mut SampleSource,
) -> (r: Result<SpawnPlan, DespawnParticlesError>)
    requires
        event.wf(),
        target.wf(),
        assets_wf(assets@),
    ensures
        event_outcome(*event, *target, assets@, old(src).state, final(src).state, r),
{
    let ghost s0 = src.state;
    let target_num = event.target_num_particles.get_value(src);
    let ghost s1 = src.state;
    proof {
        assert(target_num == count_value(event.target_num_particles, s0));
        assert(s1 == count_next(event.target_num_particles, s0));
    }
    if !target.exists {
        return Ok(
            SpawnPlan { target_despawned: false, recurse: event.recurse, particles: Vec::new() },
        );
    }
    if target.no_despawn_animation {
        return Ok(
            SpawnPlan { target_despawned: true, recurse: event.recurse, particles: Vec::new() },
        );
    }
    let visual = match resolve_source_visual(target, event.gray) {
        Err(e) => {
            return Err(e);
        },
        Ok(v) => v,
    };
    let handle: Option<u64> = match event.mesh_override {
        Some(h) => Some(h),
        None => match target.mesh_override {
            Some(h) => Some(h),
            None => match &visual {
                SourceVisual::FlatMesh { mesh_handle, .. } => Some(*mesh_handle),
                SourceVisual::ImageRegion { .. } => None,
            },
        },
    };
    proof {
        assert(handle == chosen_handle(*event, *target, visual));
    }
    let split = match handle {
        Some(h) => match find_mesh(assets, h) {
            None => {
                return Err(DespawnParticlesError::InvalidMeshHandle);
            },
            Some(i) => split_mesh(&assets[i].1, target_num),
        },
        None => {
            let size = match &visual {
                SourceVisual::ImageRegion { input_size, .. } => *input_size,
                SourceVisual::FlatMesh { .. } => Vec2 { x: 0, y: 0 },
            };
            let rect = make_rect_mesh(size);
            split_mesh(&rect, target_num)
        },
    };
    let out = match split {
        Err(e) => {
            return Err(e);
        },
        Ok(out) => out,
    };
    let ti = match &target.global_transform {
        None => {
            return Ok(
                SpawnPlan {
                    target_despawned: true,
                    recurse: event.recurse,
                    particles: Vec::new(),
                },
            );
        },
        Some(ti) => *ti,
    };
    let pv = match &target.velocity {
        Some(v) => *v,
        None => Velocity { angvel: 0, linvel: Vec2 { x: 0, y: 0 } },
    };
    let ghost frags = frags_view(out.fragments@);
    let mut particles: Vec<ParticleSpawn> = Vec::new();
    let n = out.fragments.len();
    let mut i: usize = 0;
    while i < n
        invariant
            0 <= i <= n,
            n == out.fragments@.len(),
            frags == frags_view(out.fragments@),
            frags.len() == n,
            event.wf(),
            ti.wf(),
            source_visual_wf(visual),
            3 <= out.denom <= 0xc000,
            -PHYS_LIMIT <= pv.linvel.x <= PHYS_LIMIT,
            -PHYS_LIMIT <= pv.linvel.y <= PHYS_LIMIT,
            -PHYS_LIMIT <= pv.angvel <= PHYS_LIMIT,
            forall|k: int|
                0 <= k < n ==> crate::mesh::frag_within((#[trigger] out.fragments@[k])@, FRAG_LIMIT as int),
            forall|k: int|
                0 <= k < n ==> (#[trigger] out.fragments@[k]).indices@ == seq![0u32, 1u32, 2u32],
            particles@.len() == i,
            src.state == frag_state(*event, s1, i as nat),
            forall|k: int|
                0 <= k < i ==> particle_matches(
                    *event,
                    ti,
                    pv,
                    visual,
                    frags[k],
                    out.denom as int,
                    frag_state(*event, s1, k as nat),
                    #[trigger] particles@[k],
                ),
        decreases n - i,
    {
        let frag = out.fragments[i];
        proof {
            assert(frag@ == frags[i as int]);
        }
        let p = spawn_particle(event, &ti, &pv, &visual, frag, out.denom, src);
        particles.push(p);
        proof {
            assert(frag_end_state(*event, frag_state(*event, s1, i as nat)) == frag_state(
                *event,
                s1,
                (i + 1) as nat,
            ));
        }
        i = i + 1;
    }
    Ok(SpawnPlan { target_despawned: true, recurse: event.recurse, particles })
}

/// Handles a tick's batch of despawn requests in order. Each element of the
/// result stands for one request: its plan, or the error the host logs for
/// it. A failed request never aborts the batch. The ghost component records
/// the sampling state each request started and ended with, chained from the
/// first to the last.
pub fn handle_despawn_particles_events(
    events: &Vec<(DespawnParticlesEvent, TargetInfo)>,
    assets: &Vec<(u64, Mesh)>,
    src: &mut SampleSource,
) -> (r: (Vec<Result<SpawnPlan, DespawnParticlesError>>, Ghost<Seq<(u64, u64)>>))
    requires
        forall|k: int|
            0 <= k < events@.len() ==> (#[trigger] events@[k]).0.wf() && events@[k].1.wf(),
        assets_wf(assets@),
    ensures
        r.0@.len() == events@.len(),
        r.1@.len() == events@.len(),
        forall|k: int|
            0 <= k < events@.len() ==> event_outcome(
                events@[k].0,
                events@[k].1,
                assets@,
                (#[trigger] r.1@[k]).0,
                r.1@[k].1,
                r.0@[k],
            ),
        forall|k: int| 0 < k < events@.len() ==> (#[trigger] r.1@[k]).0 == r.1@[k - 1].1,
        events@.len() > 0 ==> r.1@[0].0 == old(src).state && r.1@[events@.len() - 1].1
            == final(src).state,
        events@.len() == 0 ==> final(src).state == old(src).state,
{
    let mut rs: Vec<Result<SpawnPlan, DespawnParticlesError>> = Vec::new();
    let ghost mut states: Seq<(u64, u64)> = Seq::empty();
    let mut i: usize = 0;
    while i < events.len()
        invariant
            0 <= i <= events@.len(),
            rs@.len() == i,
            states.len() == i,
            forall|k: int|
                0 <= k < events@.len() ==> (#[trigger] events@[k]).0.wf() && events@[k].1.wf(),
            assets_wf(assets@),
            forall|k: int|
                0 <= k < i ==> event_outcome(
                    events@[k].0,
                    events@[k].1,
                    assets@,
                    (#[trigger] states[k]).0,
                    states[k].1,
                    rs@[k],
                ),
            forall|k: int| 0 < k < i ==> (#[trigger] states[k]).0 == states[k - 1].1,
            i > 0 ==> states[0].0 == old(src).state && states[i - 1].1 == src.state,
            i == 0 ==> src.state == old(src).state,
        decreases events@.len() - i,
    {
        let ghost sa = src.state;
        let result = handle_despawn_particles_event(&events[i].0, &events[i].1, assets, src);
        let ghost sb = src.state;
        rs.push(result);
        proof {
            states = states.push((sa, sb));
        }
        i = i + 1;
    }
    (rs, Ghost(states))
}

} // verus!
