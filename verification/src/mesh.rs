//! Integer layouts of the scene's meshes: which vertices a mesh has, in which
//! order, and which triangles join them. The floating-point coordinates of each
//! vertex are derived from these layouts by the renderer.
use vstd::prelude::*;

verus! {

/// An integer 3-vector: a corner's sign pattern (each component -1, 0 or 1,
/// later scaled by the mesh's half-extents) or an axis-aligned unit normal.
#[derive(Clone, Copy, Debug, PartialEq, Eq, Structural)]
pub struct IVec3 {
    pub x: i32,
    pub y: i32,
    pub z: i32,
}

/// A corner of a flat, axis-aligned face: its position as a sign pattern,
/// its outward normal, and its texture coordinates on the unit square.
#[derive(Clone, Copy, Debug, PartialEq, Eq, Structural)]
pub struct Corner {
    pub position: IVec3,
    pub normal: IVec3,
    pub u: u32,
    pub v: u32,
}

/// The vertices of a mesh, in buffer order, and its triangle list: each three
/// consecutive indices name the vertices of one triangle.
pub struct Topology<V> {
    pub vertices: Vec<V>,
    pub indices: Vec<u32>,
}

impl<V> Topology<V> {
    /// The index buffer is a whole number of triangles and every index names
    /// a vertex of the mesh.
    pub open spec fn well_formed(&self) -> bool {
        &&& self.indices@.len() % 3 == 0
        &&& forall|i: int|
            0 <= i < self.indices@.len() ==> (#[trigger] self.indices@[i] as int)
                < self.vertices@.len()
    }
}

/// An integer point or direction in specifications.
pub type P3 = (int, int, int);

/// The value of an integer vector as a mathematical triple.
pub open spec fn p3(v: IVec3) -> P3 {
    (v.x as int, v.y as int, v.z as int)
}

/// Twice the signed area of the triangle (p0, p1, p2) seen from the side that
/// `n` points to: positive exactly when the triangle turns counter-clockwise
/// there, i.e. `((p1 - p0) x (p2 - p0)) . n`.
pub open spec fn turn(p0: P3, p1: P3, p2: P3, n: P3) -> int {
    let ax = p1.0 - p0.0;
    let ay = p1.1 - p0.1;
    let az = p1.2 - p0.2;
    let bx = p2.0 - p0.0;
    let by = p2.1 - p0.1;
    let bz = p2.2 - p0.2;
    (ay * bz - az * by) * n.0 + (az * bx - ax * bz) * n.1 + (ax * by - ay * bx) * n.2
}

/// For triangle `i` of a corner mesh: the turn of its three corners about the
/// normal of its first corner.
pub open spec fn triangle_turn(t: Topology<Corner>, i: int) -> int {
    let v0 = t.vertices@[t.indices@[3 * i] as int];
    let v1 = t.vertices@[t.indices@[3 * i + 1] as int];
    let v2 = t.vertices@[t.indices@[3 * i + 2] as int];
    turn(p3(v0.position), p3(v1.position), p3(v2.position), p3(v0.normal))
}

/// Every triangle of the mesh is wound counter-clockwise when seen from the
/// side its normal points to.
pub open spec fn faces_outward(t: Topology<Corner>) -> bool {
    forall|i: int| 0 <= i < t.indices@.len() / 3 ==> #[trigger] triangle_turn(t, i) > 0
}

/// Unit-square coordinates of corner `c` of a quad: (0,0), (1,0), (1,1), (0,1).
pub open spec fn quad_u(c: int) -> int {
    if c == 1 || c == 2 {
        1
    } else {
        0
    }
}

pub open spec fn quad_v(c: int) -> int {
    if c == 2 || c == 3 {
        1
    } else {
        0
    }
}

/// Which corner of its quad the `k`-th index of the quad's two triangles
/// names: the triangles are (0, 1, 2) and (0, 2, 3).
pub open spec fn quad_corner_of(k: int) -> int {
    if k == 0 || k == 3 {
        0
    } else if k == 1 {
        1
    } else if k == 2 || k == 4 {
        2
    } else {
        3
    }
}

/// The quad tables written out: corner texture coordinates (0,0), (1,0),
/// (1,1), (0,1), and the two triangles (0, 1, 2) and (0, 2, 3); corner `c`
/// of face `f` is box vertex 4 f + c and index `k` of face `f` is box index
/// 6 f + k.
pub proof fn lemma_quad_tables(f: int, c: int, k: int)
    ensures
        (quad_u(0), quad_v(0)) == (0int, 0int),
        (quad_u(1), quad_v(1)) == (1int, 0int),
        (quad_u(2), quad_v(2)) == (1int, 1int),
        (quad_u(3), quad_v(3)) == (0int, 1int),
        quad_corner_of(0) == 0 && quad_corner_of(1) == 1 && quad_corner_of(2) == 2,
        quad_corner_of(3) == 0 && quad_corner_of(4) == 2 && quad_corner_of(5) == 3,
        corner_slot(f, c) == 4 * f + c,
        face_index_slot(f, k) == 6 * f + k,
{
}

// ── Plane ────────────────────────────────────────────────────────────────────

/// `v` is corner `c` of the ground plane: x and z signs (-,-), (+,-), (+,+),
/// (-,+), height 0, normal +Y, texture coordinates on the unit square.
pub open spec fn is_plane_corner(v: Corner, c: int) -> bool {
    &&& p3(v.position) == (2 * quad_u(c) - 1, 0int, 2 * quad_v(c) - 1)
    &&& p3(v.normal) == (0int, 1int, 0int)
    &&& v.u == quad_u(c)
    &&& v.v == quad_v(c)
}

/// The plane's index list: triangles (0, 3, 2) and (0, 2, 1).
pub open spec fn plane_index(k: int) -> int {
    if k == 0 || k == 3 {
        0
    } else if k == 1 {
        3
    } else if k == 2 || k == 4 {
        2
    } else {
        1
    }
}

/// The plane written out: corners (-1, 0, -1), (1, 0, -1), (1, 0, 1),
/// (-1, 0, 1) facing +Y with texture coordinates (0,0), (1,0), (1,1), (0,1),
/// and triangles (0, 3, 2), (0, 2, 1).
pub proof fn lemma_plane_tables(v: Corner)
    ensures
        is_plane_corner(v, 0) == (p3(v.position) == (-1int, 0int, -1int) && p3(v.normal) == (
        0int, 1int, 0int) && v.u == 0 && v.v == 0),
        is_plane_corner(v, 1) == (p3(v.position) == (1int, 0int, -1int) && p3(v.normal) == (
        0int, 1int, 0int) && v.u == 1 && v.v == 0),
        is_plane_corner(v, 2) == (p3(v.position) == (1int, 0int, 1int) && p3(v.normal) == (
        0int, 1int, 0int) && v.u == 1 && v.v == 1),
        is_plane_corner(v, 3) == (p3(v.position) == (-1int, 0int, 1int) && p3(v.normal) == (
        0int, 1int, 0int) && v.u == 0 && v.v == 1),
        plane_index(0) == 0 && plane_index(1) == 3 && plane_index(2) == 2,
        plane_index(3) == 0 && plane_index(4) == 2 && plane_index(5) == 1,
{
}

/// What it is for `v` to be corner `c` of box face `f`, written out: its sign
/// pattern and normal are the table's, its texture coordinates the quad's.
pub proof fn lemma_box_corner_meaning(v: Corner, f: int, c: int)
    ensures
        is_box_corner(v, f, c) == (p3(v.position) == box_corner_position(f, c) && p3(v.normal)
            == box_frame(f).0 && v.u == quad_u(c) && v.v == quad_v(c)),
{
}

fn quad_corner_uv(c: u32) -> (r: (u32, u32))
    requires
        c < 4,
    ensures
        r.0 == quad_u(c as int),
        r.1 == quad_v(c as int),
{
    if c == 0 {
        (0, 0)
    } else if c == 1 {
        (1, 0)
    } else if c == 2 {
        (1, 1)
    } else {
        (0, 1)
    }
}

/// Layout of the flat square ground plane (`plane` in the renderer): four
/// corners, two triangles, both facing up.
pub fn plane_layout() -> (t: Topology<Corner>)
    ensures
        t.vertices@.len() == 4,
        forall|c: int| 0 <= c < 4 ==> is_plane_corner(#[trigger] t.vertices@[c], c),
        t.indices@.len() == 6,
        forall|k: int| 0 <= k < 6 ==> #[trigger] t.indices@[k] == plane_index(k),
        t.well_formed(),
        faces_outward(t),
{
    let mut vertices: Vec<Corner> = Vec::new();
    let mut c: u32 = 0;
    while c < 4
        invariant
            c <= 4,
            vertices@.len() == c,
            forall|j: int| 0 <= j < c ==> is_plane_corner(#[trigger] vertices@[j], j),
        decreases 4 - c,
    {
        let (u, v) = quad_corner_uv(c);
        let x: i32 = 2 * (u as i32) - 1;
        let z: i32 = 2 * (v as i32) - 1;
        vertices.push(
            Corner {
                position: IVec3 { x, y: 0, z },
                normal: IVec3 { x: 0, y: 1, z: 0 },
                u,
                v,
            },
        );
        c = c + 1;
    }
    let indices: Vec<u32> = vec![0, 3, 2, 0, 2, 1];
    let t = Topology { vertices, indices };
    assert(t.indices@ =~= seq![0u32, 3, 2, 0, 2, 1]);
    assert(is_plane_corner(t.vertices@[0], 0));
    assert(is_plane_corner(t.vertices@[1], 1));
    assert(is_plane_corner(t.vertices@[2], 2));
    assert(is_plane_corner(t.vertices@[3], 3));
    assert(turn((-1int, 0int, -1int), (-1int, 0int, 1int), (1int, 0int, 1int), (0int, 1int, 0int)) > 0)
        by (nonlinear_arith);
    assert(turn((-1int, 0int, -1int), (1int, 0int, 1int), (1int, 0int, -1int), (0int, 1int, 0int)) > 0)
        by (nonlinear_arith);
    assert forall|i: int| 0 <= i < t.indices@.len() / 3 implies #[trigger] triangle_turn(t, i)
        > 0 by {
        if i == 0 {
            assert(triangle_turn(t, 0) == turn(
                (-1int, 0int, -1int),
                (-1int, 0int, 1int),
                (1int, 0int, 1int),
                (0int, 1int, 0int),
            ));
        } else {
            assert(triangle_turn(t, 1) == turn(
                (-1int, 0int, -1int),
                (1int, 0int, 1int),
                (1int, 0int, -1int),
                (0int, 1int, 0int),
            ));
        }
    }
    t
}

// ── Box ──────────────────────────────────────────────────────────────────────

/// Face `f` of the box as (outward normal, u axis, v axis), in the order
/// +Y, -Y, +Z, -Z, +X, -X. The axes satisfy u x v = normal.
pub open spec fn box_frame(f: int) -> (P3, P3, P3) {
    if f == 0 {
        ((0, 1, 0), (1, 0, 0), (0, 0, -1))
    } else if f == 1 {
        ((0, -1, 0), (-1, 0, 0), (0, 0, -1))
    } else if f == 2 {
        ((0, 0, 1), (1, 0, 0), (0, 1, 0))
    } else if f == 3 {
        ((0, 0, -1), (-1, 0, 0), (0, 1, 0))
    } else if f == 4 {
        ((1, 0, 0), (0, 0, -1), (0, 1, 0))
    } else {
        ((-1, 0, 0), (0, 0, 1), (0, 1, 0))
    }
}

/// Sign pattern of corner `c` of face `f`: normal + a * u + b * v, where a
/// and b are -1 or +1 as the corner's texture coordinates are 0 or 1.
pub open spec fn box_corner_position(f: int, c: int) -> P3 {
    let (n, ua, va) = box_frame(f);
    let a = 2 * quad_u(c) - 1;
    let b = 2 * quad_v(c) - 1;
    (n.0 + a * ua.0 + b * va.0, n.1 + a * ua.1 + b * va.1, n.2 + a * ua.2 + b * va.2)
}

/// `v` is corner `c` of face `f` of the box.
pub open spec fn is_box_corner(v: Corner, f: int, c: int) -> bool {
    &&& p3(v.position) == box_corner_position(f, c)
    &&& p3(v.normal) == box_frame(f).0
    &&& v.u == quad_u(c)
    &&& v.v == quad_v(c)
}

/// Buffer position of corner `c` of face `f`.
pub open spec fn corner_slot(f: int, c: int) -> int {
    4 * f + c
}

/// Buffer position of the `k`-th index of face `f`.
pub open spec fn face_index_slot(f: int, k: int) -> int {
    6 * f + k
}

fn ivec3(x: i32, y: i32, z: i32) -> (r: IVec3)
    ensures
        p3(r) == (x as int, y as int, z as int),
{
    IVec3 { x, y, z }
}

fn box_face_frame(f: u32) -> (r: (IVec3, IVec3, IVec3))
    requires
        f < 6,
    ensures
        (p3(r.0), p3(r.1), p3(r.2)) == box_frame(f as int),
{
    if f == 0 {
        (ivec3(0, 1, 0), ivec3(1, 0, 0), ivec3(0, 0, -1))
    } else if f == 1 {
        (ivec3(0, -1, 0), ivec3(-1, 0, 0), ivec3(0, 0, -1))
    } else if f == 2 {
        (ivec3(0, 0, 1), ivec3(1, 0, 0), ivec3(0, 1, 0))
    } else if f == 3 {
        (ivec3(0, 0, -1), ivec3(-1, 0, 0), ivec3(0, 1, 0))
    } else if f == 4 {
        (ivec3(1, 0, 0), ivec3(0, 0, -1), ivec3(0, 1, 0))
    } else {
        (ivec3(-1, 0, 0), ivec3(0, 0, 1), ivec3(0, 1, 0))
    }
}

/// Turn of triangle `h` (0 or 1) of face `f` of the box about the face's
/// normal.
pub open spec fn box_triangle_turn(f: int, h: int) -> int {
    turn(
        box_corner_position(f, quad_corner_of(3 * h)),
        box_corner_position(f, quad_corner_of(3 * h + 1)),
        box_corner_position(f, quad_corner_of(3 * h + 2)),
        box_frame(f).0,
    )
}

/// The box's corners, face by face (+Y, -Y, +Z, -Z, +X, -X), as sign
/// patterns, with each face's outward normal.
pub proof fn lemma_box_corner_values()
    ensures
        box_frame(0).0 == (0int, 1int, 0int),
        box_corner_position(0, 0) == (-1int, 1int, 1int),
        box_corner_position(0, 1) == (1int, 1int, 1int),
        box_corner_position(0, 2) == (1int, 1int, -1int),
        box_corner_position(0, 3) == (-1int, 1int, -1int),
        box_frame(1).0 == (0int, -1int, 0int),
        box_corner_position(1, 0) == (1int, -1int, 1int),
        box_corner_position(1, 1) == (-1int, -1int, 1int),
        box_corner_position(1, 2) == (-1int, -1int, -1int),
        box_corner_position(1, 3) == (1int, -1int, -1int),
        box_frame(2).0 == (0int, 0int, 1int),
        box_corner_position(2, 0) == (-1int, -1int, 1int),
        box_corner_position(2, 1) == (1int, -1int, 1int),
        box_corner_position(2, 2) == (1int, 1int, 1int),
        box_corner_position(2, 3) == (-1int, 1int, 1int),
        box_frame(3).0 == (0int, 0int, -1int),
        box_corner_position(3, 0) == (1int, -1int, -1int),
        box_corner_position(3, 1) == (-1int, -1int, -1int),
        box_corner_position(3, 2) == (-1int, 1int, -1int),
        box_corner_position(3, 3) == (1int, 1int, -1int),
        box_frame(4).0 == (1int, 0int, 0int),
        box_corner_position(4, 0) == (1int, -1int, 1int),
        box_corner_position(4, 1) == (1int, -1int, -1int),
        box_corner_position(4, 2) == (1int, 1int, -1int),
        box_corner_position(4, 3) == (1int, 1int, 1int),
        box_frame(5).0 == (-1int, 0int, 0int),
        box_corner_position(5, 0) == (-1int, -1int, -1int),
        box_corner_position(5, 1) == (-1int, -1int, 1int),
        box_corner_position(5, 2) == (-1int, 1int, 1int),
        box_corner_position(5, 3) == (-1int, 1int, -1int),
{
}

/// Every corner of the box is a corner of the cube [-1, 1]^3 (so the box is
/// centred on the origin and spans its half-extents) and lies on the face it
/// belongs to: its coordinate along the face's normal is the normal's sign.
pub proof fn lemma_box_corners_on_faces()
    ensures
        forall|f: int, c: int|
            0 <= f < 6 && 0 <= c < 4 ==> {
                let p = #[trigger] box_corner_position(f, c);
                let n = box_frame(f).0;
                &&& (p.0 == 1 || p.0 == -1)
                &&& (p.1 == 1 || p.1 == -1)
                &&& (p.2 == 1 || p.2 == -1)
                &&& p.0 * n.0 + p.1 * n.1 + p.2 * n.2 == 1
            },
{
    lemma_box_corner_values();
    assert forall|f: int, c: int| 0 <= f < 6 && 0 <= c < 4 implies {
        let p = #[trigger] box_corner_position(f, c);
        let n = box_frame(f).0;
        &&& (p.0 == 1 || p.0 == -1)
        &&& (p.1 == 1 || p.1 == -1)
        &&& (p.2 == 1 || p.2 == -1)
        &&& p.0 * n.0 + p.1 * n.1 + p.2 * n.2 == 1
    } by {
        let p = box_corner_position(f, c);
        let n = box_frame(f).0;
        assert(p.0 * n.0 + p.1 * n.1 + p.2 * n.2 == 1) by (nonlinear_arith)
            requires
                (n == (0int, 1int, 0int) && p.1 == 1) || (n == (0int, -1int, 0int) && p.1 == -1)
                    || (n == (0int, 0int, 1int) && p.2 == 1) || (n == (0int, 0int, -1int) && p.2
                    == -1) || (n == (1int, 0int, 0int) && p.0 == 1) || (n == (-1int, 0int, 0int)
                    && p.0 == -1),
        ;
    }
}

proof fn lemma_box_triangles_turn_positive()
    ensures
        forall|f: int, h: int| 0 <= f < 6 && 0 <= h < 2 ==> #[trigger] box_triangle_turn(f, h) > 0,
{
    lemma_box_corner_values();
    assert(turn((-1int, 1int, 1int), (1int, 1int, 1int), (1int, 1int, -1int), (0int, 1int, 0int)) > 0) by (nonlinear_arith);
    assert(box_triangle_turn(0, 0) > 0);
    assert(turn((-1int, 1int, 1int), (1int, 1int, -1int), (-1int, 1int, -1int), (0int, 1int, 0int)) > 0) by (nonlinear_arith);
    assert(box_triangle_turn(0, 1) > 0);
    assert(turn((1int, -1int, 1int), (-1int, -1int, 1int), (-1int, -1int, -1int), (0int, -1int, 0int)) > 0) by (nonlinear_arith);
    assert(box_triangle_turn(1, 0) > 0);
    assert(turn((1int, -1int, 1int), (-1int, -1int, -1int), (1int, -1int, -1int), (0int, -1int, 0int)) > 0) by (nonlinear_arith);
    assert(box_triangle_turn(1, 1) > 0);
    assert(turn((-1int, -1int, 1int), (1int, -1int, 1int), (1int, 1int, 1int), (0int, 0int, 1int)) > 0) by (nonlinear_arith);
    assert(box_triangle_turn(2, 0) > 0);
    assert(turn((-1int, -1int, 1int), (1int, 1int, 1int), (-1int, 1int, 1int), (0int, 0int, 1int)) > 0) by (nonlinear_arith);
    assert(box_triangle_turn(2, 1) > 0);
    assert(turn((1int, -1int, -1int), (-1int, -1int, -1int), (-1int, 1int, -1int), (0int, 0int, -1int)) > 0) by (nonlinear_arith);
    assert(box_triangle_turn(3, 0) > 0);
    assert(turn((1int, -1int, -1int), (-1int, 1int, -1int), (1int, 1int, -1int), (0int, 0int, -1int)) > 0) by (nonlinear_arith);
    assert(box_triangle_turn(3, 1) > 0);
    assert(turn((1int, -1int, 1int), (1int, -1int, -1int), (1int, 1int, -1int), (1int, 0int, 0int)) > 0) by (nonlinear_arith);
    assert(box_triangle_turn(4, 0) > 0);
    assert(turn((1int, -1int, 1int), (1int, 1int, -1int), (1int, 1int, 1int), (1int, 0int, 0int)) > 0) by (nonlinear_arith);
    assert(box_triangle_turn(4, 1) > 0);
    assert(turn((-1int, -1int, -1int), (-1int, -1int, 1int), (-1int, 1int, 1int), (-1int, 0int, 0int)) > 0) by (nonlinear_arith);
    assert(box_triangle_turn(5, 0) > 0);
    assert(turn((-1int, -1int, -1int), (-1int, 1int, 1int), (-1int, 1int, -1int), (-1int, 0int, 0int)) > 0) by (nonlinear_arith);
    assert(box_triangle_turn(5, 1) > 0);
    assert forall|f: int, h: int| 0 <= f < 6 && 0 <= h < 2 implies #[trigger] box_triangle_turn(f, h) > 0 by {
        if f == 0 && h == 0 {} else if f == 0 {} else if f == 1 && h == 0 {} else if f == 1 {}
        else if f == 2 && h == 0 {} else if f == 2 {} else if f == 3 && h == 0 {} else if f == 3 {}
        else if f == 4 && h == 0 {} else if f == 4 {} else if h == 0 {} else {}
    }
}

/// Layout of the box (`box_mesh` and `cube` in the renderer): six faces of
/// four corners each, two triangles per face.
pub fn box_layout() -> (t: Topology<Corner>)
    ensures
        t.vertices@.len() == 24,
        forall|f: int, c: int|
            0 <= f < 6 && 0 <= c < 4 ==> is_box_corner(
                #[trigger] t.vertices@[corner_slot(f, c)],
                f,
                c,
            ),
        t.indices@.len() == 36,
        forall|f: int, k: int|
            0 <= f < 6 && 0 <= k < 6 ==> #[trigger] t.indices@[face_index_slot(f, k)] == 4 * f
                + quad_corner_of(k),
        t.well_formed(),
        faces_outward(t),
{
    let mut vertices: Vec<Corner> = Vec::new();
    let mut indices: Vec<u32> = Vec::new();
    let mut f: u32 = 0;
    while f < 6
        invariant
            f <= 6,
            vertices@.len() == 4 * f,
            indices@.len() == 6 * f,
            forall|g: int, c: int|
                0 <= g < f && 0 <= c < 4 ==> is_box_corner(
                    #[trigger] vertices@[corner_slot(g, c)],
                    g,
                    c,
                ),
            forall|g: int, k: int|
                0 <= g < f && 0 <= k < 6 ==> #[trigger] indices@[face_index_slot(g, k)] == 4 * g
                    + quad_corner_of(k),
        decreases 6 - f,
    {
        let (n, ua, va) = box_face_frame(f);
        let base: u32 = 4 * f;
        let mut c: u32 = 0;
        while c < 4
            invariant
                f < 6,
                c <= 4,
                (p3(n), p3(ua), p3(va)) == box_frame(f as int),
                vertices@.len() == 4 * f + c,
                forall|g: int, j: int|
                    0 <= g < f && 0 <= j < 4 ==> is_box_corner(
                        #[trigger] vertices@[corner_slot(g, j)],
                        g,
                        j,
                    ),
                forall|j: int|
                    0 <= j < c ==> is_box_corner(
                        #[trigger] vertices@[corner_slot(f as int, j)],
                        f as int,
                        j,
                    ),
            decreases 4 - c,
        {
            let (u, v) = quad_corner_uv(c);
            let a: i32 = 2 * (u as i32) - 1;
            let b: i32 = 2 * (v as i32) - 1;
            let position = IVec3 {
                x: n.x + a * ua.x + b * va.x,
                y: n.y + a * ua.y + b * va.y,
                z: n.z + a * ua.z + b * va.z,
            };
            vertices.push(Corner { position, normal: n, u, v });
            assert(is_box_corner(vertices@[corner_slot(f as int, c as int)], f as int, c as int));
            c = c + 1;
        }
        indices.push(base);
        indices.push(base + 1);
        indices.push(base + 2);
        indices.push(base);
        indices.push(base + 2);
        indices.push(base + 3);
        assert forall|g: int, k: int|
            0 <= g < f + 1 && 0 <= k < 6 implies #[trigger] indices@[face_index_slot(g, k)] == 4
            * g + quad_corner_of(k) by {
            if g == f {
                assert(face_index_slot(g, k) == 6 * f + k);
            }
        }
        f = f + 1;
    }
    let t = Topology { vertices, indices };
    assert forall|i: int| 0 <= i < t.indices@.len() implies (#[trigger] t.indices@[i] as int)
        < t.vertices@.len() by {
        let g = i / 6;
        let k = i % 6;
        assert(i == face_index_slot(g, k));
    }
    proof {
        lemma_box_triangles_turn_positive();
    }
    assert forall|i: int| 0 <= i < t.indices@.len() / 3 implies #[trigger] triangle_turn(t, i)
        > 0 by {
        let g = i / 2;
        let h = i % 2;
        assert(3 * i == face_index_slot(g, 3 * h));
        assert(3 * i + 1 == face_index_slot(g, 3 * h + 1));
        assert(3 * i + 2 == face_index_slot(g, 3 * h + 2));
        assert(is_box_corner(t.vertices@[corner_slot(g, quad_corner_of(3 * h))], g, quad_corner_of(3 * h)));
        assert(is_box_corner(t.vertices@[corner_slot(g, quad_corner_of(3 * h + 1))], g, quad_corner_of(3 * h + 1)));
        assert(is_box_corner(t.vertices@[corner_slot(g, quad_corner_of(3 * h + 2))], g, quad_corner_of(3 * h + 2)));
        assert(box_triangle_turn(g, h) > 0);
    }
    t
}

// ── Sphere ───────────────────────────────────────────────────────────────────

/// A vertex of the UV sphere, named by its latitude step (0 at the +Y pole,
/// `stacks` at the -Y pole) and its longitude step (0 to `slices`; the first
/// and last meet at the seam).
#[derive(Clone, Copy, Debug, PartialEq, Eq, Structural)]
pub struct GridPoint {
    pub stack: u32,
    pub slice: u32,
}

/// Number of vertices of a sphere with the given subdivisions.
pub open spec fn sphere_vertex_count(stacks: int, slices: int) -> int {
    (stacks + 1) * (slices + 1)
}

/// Buffer position of the vertex at (stack, slice): rows of `slices + 1`
/// vertices, one row per stack.
pub open spec fn grid_slot(slices: int, stack: int, slice: int) -> int {
    stack * (slices + 1) + slice
}

/// Buffer position of the `k`-th index of the quad at (stack, slice).
pub open spec fn quad_slot(slices: int, stack: int, slice: int, k: int) -> int {
    6 * (stack * slices + slice) + k
}

/// The `k`-th index of the quad whose upper-left vertex is (stack, slice):
/// with `a` that vertex and `b` the one below it, the triangles are
/// (a, a + 1, b) and (b, a + 1, b + 1).
pub open spec fn sphere_quad_index(slices: int, stack: int, slice: int, k: int) -> int {
    let a = grid_slot(slices, stack, slice);
    let b = grid_slot(slices, stack + 1, slice);
    if k == 0 {
        a
    } else if k == 1 || k == 4 {
        a + 1
    } else if k == 2 || k == 3 {
        b
    } else {
        b + 1
    }
}

/// In a row-major grid of width `w`, an earlier cell comes at an earlier
/// position.
pub(crate) proof fn lemma_row_major_lt(w: int, g: int, j: int, r: int, c: int)
    requires
        0 <= j < w,
        0 <= g,
        0 <= c,
        g < r || (g == r && j < c),
    ensures
        g * w + j < r * w + c,
{
    if g < r {
        assert((g + 1) * w <= r * w) by (nonlinear_arith)
            requires
                g + 1 <= r,
                0 <= w,
        ;
        assert((g + 1) * w == g * w + w) by (nonlinear_arith);
    }
}

pub(crate) proof fn lemma_next_row(w: int, r: int)
    ensures
        r * w + w == (r + 1) * w,
{
    assert(r * w + w == (r + 1) * w) by (nonlinear_arith);
}

pub(crate) proof fn lemma_mul_le(a: int, b: int, w: int)
    requires
        0 <= a <= b,
        0 <= w,
    ensures
        0 <= a * w <= b * w,
{
    assert(0 <= a * w <= b * w) by (nonlinear_arith)
        requires
            0 <= a <= b,
            0 <= w,
    ;
}

/// Layout of the UV sphere (`sphere` in the renderer) with `stacks` latitude
/// bands and `slices` longitude bands: a grid of (stacks + 1) rows of
/// (slices + 1) vertices and two triangles per grid cell. The bound on the
/// vertex count is the one under which every index fits in a `u32`.
pub fn sphere_layout(stacks: u32, slices: u32) -> (t: Topology<GridPoint>)
    requires
        sphere_vertex_count(stacks as int, slices as int) <= 0x1_0000_0000,
    ensures
        t.vertices@.len() == sphere_vertex_count(stacks as int, slices as int),
        forall|st: int, sl: int|
            0 <= st <= stacks && 0 <= sl <= slices ==> {
                let p = #[trigger] t.vertices@[grid_slot(slices as int, st, sl)];
                p.stack == st && p.slice == sl
            },
        t.indices@.len() == 6 * (stacks * slices),
        forall|st: int, sl: int, k: int|
            0 <= st < stacks && 0 <= sl < slices && 0 <= k < 6 ==> #[trigger] t.indices@[quad_slot(
                slices as int,
                st,
                sl,
                k,
            )] == sphere_quad_index(slices as int, st, sl, k),
        forall|st: int, sl: int|
            0 <= st < stacks && 0 <= sl < slices ==> {
                let q = #[trigger] quad_slot(slices as int, st, sl, 0);
                let a = st * (slices + 1) + sl;
                let b = a + slices + 1;
                &&& q == 6 * (st * slices + sl)
                &&& t.indices@[q] == a
                &&& t.indices@[q + 1] == a + 1
                &&& t.indices@[q + 2] == b
                &&& t.indices@[q + 3] == b
                &&& t.indices@[q + 4] == a + 1
                &&& t.indices@[q + 5] == b + 1
            },
        t.well_formed(),
        sphere_wound_uniformly(t),
{
    let ghost w = slices + 1;
    let row: u64 = slices as u64 + 1;
    let mut vertices: Vec<GridPoint> = Vec::new();
    let mut st: u64 = 0;
    while st <= stacks as u64
        invariant
            w == slices + 1,
            row == w,
            st <= stacks + 1,
            sphere_vertex_count(stacks as int, slices as int) <= 0x1_0000_0000,
            vertices@.len() == st * w,
            forall|g: int, j: int|
                0 <= g < st && 0 <= j <= slices ==> {
                    let p = #[trigger] vertices@[grid_slot(slices as int, g, j)];
                    p.stack == g && p.slice == j
                },
        decreases stacks + 1 - st,
    {
        let mut sl: u64 = 0;
        while sl <= slices as u64
            invariant
                w == slices + 1,
                row == w,
                st <= stacks,
                sl <= w,
                vertices@.len() == st * w + sl,
                forall|g: int, j: int|
                    0 <= g < st && 0 <= j <= slices ==> {
                        let p = #[trigger] vertices@[grid_slot(slices as int, g, j)];
                        p.stack == g && p.slice == j
                    },
                forall|j: int|
                    0 <= j < sl ==> {
                        let p = #[trigger] vertices@[grid_slot(slices as int, st as int, j)];
                        p.stack == st && p.slice == j
                    },
            decreases w - sl,
        {
            proof {
                assert forall|g: int, j: int| 0 <= g < st && 0 <= j <= slices implies grid_slot(
                    slices as int,
                    g,
                    j,
                ) < st * w + sl by {
                    lemma_row_major_lt(w, g, j, st as int, sl as int);
                }
            }
            vertices.push(GridPoint { stack: st as u32, slice: sl as u32 });
            sl = sl + 1;
        }
        proof {
            lemma_next_row(w, st as int);
        }
        st = st + 1;
    }
    let mut indices: Vec<u32> = Vec::new();
    let mut st: u64 = 0;
    while st < stacks as u64
        invariant
            w == slices + 1,
            row == w,
            st <= stacks,
            sphere_vertex_count(stacks as int, slices as int) <= 0x1_0000_0000,
            indices@.len() == 6 * (st * slices),
            forall|i: int|
                0 <= i < indices@.len() ==> (#[trigger] indices@[i] as int)
                    < sphere_vertex_count(stacks as int, slices as int),
            forall|g: int, j: int, k: int|
                0 <= g < st && 0 <= j < slices && 0 <= k < 6 ==> #[trigger] indices@[quad_slot(
                    slices as int,
                    g,
                    j,
                    k,
                )] == sphere_quad_index(slices as int, g, j, k),
        decreases stacks - st,
    {
        let mut sl: u64 = 0;
        while sl < slices as u64
            invariant
                w == slices + 1,
                row == w,
                st < stacks,
                sl <= slices,
                sphere_vertex_count(stacks as int, slices as int) <= 0x1_0000_0000,
                indices@.len() == 6 * (st * slices + sl),
                forall|i: int|
                    0 <= i < indices@.len() ==> (#[trigger] indices@[i] as int)
                        < sphere_vertex_count(stacks as int, slices as int),
                forall|g: int, j: int, k: int|
                    0 <= g < st && 0 <= j < slices && 0 <= k < 6 ==> #[trigger] indices@[quad_slot(
                        slices as int,
                        g,
                        j,
                        k,
                    )] == sphere_quad_index(slices as int, g, j, k),
                forall|j: int, k: int|
                    0 <= j < sl && 0 <= k < 6 ==> #[trigger] indices@[quad_slot(
                        slices as int,
                        st as int,
                        j,
                        k,
                    )] == sphere_quad_index(slices as int, st as int, j, k),
            decreases slices - sl,
        {
            proof {
                lemma_mul_le(st as int + 1, stacks as int, w);
                lemma_next_row(w, st as int);
                lemma_next_row(w, stacks as int);
                assert(sphere_vertex_count(stacks as int, slices as int) == (stacks + 1) * w);
            }
            let a: u64 = st * row + sl;
            let b: u64 = (st + 1) * row + sl;
            let ghost old_len = indices@.len();
            proof {
                assert forall|g: int, j: int, k: int|
                    (0 <= g < st && 0 <= j < slices && 0 <= k < 6) || (g == st && 0 <= j < sl && 0
                        <= k < 6) implies quad_slot(slices as int, g, j, k) < old_len by {
                    lemma_row_major_lt(slices as int, g, j, st as int, sl as int);
                }
            }
            indices.push(a as u32);
            indices.push((a + 1) as u32);
            indices.push(b as u32);
            indices.push(b as u32);
            indices.push((a + 1) as u32);
            indices.push((b + 1) as u32);
            assert forall|j: int, k: int|
                0 <= j < sl + 1 && 0 <= k < 6 implies #[trigger] indices@[quad_slot(
                slices as int,
                st as int,
                j,
                k,
            )] == sphere_quad_index(slices as int, st as int, j, k) by {
                if j == sl {
                    assert(quad_slot(slices as int, st as int, j, k) == old_len + k);
                }
            }
            sl = sl + 1;
        }
        proof {
            lemma_next_row(slices as int, st as int);
        }
        st = st + 1;
    }
    let t = Topology { vertices, indices };
    proof {
        lemma_next_row(w, stacks as int);
        assert((6 * (stacks * slices)) % 3 == 0) by (nonlinear_arith);
        assert forall|st: int, sl: int| 0 <= st < stacks && 0 <= sl < slices implies {
            let q = #[trigger] quad_slot(slices as int, st, sl, 0);
            let a = st * (slices + 1) + sl;
            let b = a + slices + 1;
            &&& q == 6 * (st * slices + sl)
            &&& t.indices@[q] == a
            &&& t.indices@[q + 1] == a + 1
            &&& t.indices@[q + 2] == b
            &&& t.indices@[q + 3] == b
            &&& t.indices@[q + 4] == a + 1
            &&& t.indices@[q + 5] == b + 1
        } by {
            lemma_sphere_quad_explicit(slices as int, st, sl);
            assert(t.indices@[quad_slot(slices as int, st, sl, 1)] == sphere_quad_index(slices as int, st, sl, 1));
            assert(t.indices@[quad_slot(slices as int, st, sl, 2)] == sphere_quad_index(slices as int, st, sl, 2));
            assert(t.indices@[quad_slot(slices as int, st, sl, 3)] == sphere_quad_index(slices as int, st, sl, 3));
            assert(t.indices@[quad_slot(slices as int, st, sl, 4)] == sphere_quad_index(slices as int, st, sl, 4));
            assert(t.indices@[quad_slot(slices as int, st, sl, 5)] == sphere_quad_index(slices as int, st, sl, 5));
        }
        lemma_sphere_winding(t, stacks as int, slices as int);
    }
    t
}

/// The sphere's index formulas, written out: vertex (stack, slice) is at
/// `stack * (slices + 1) + slice`, and the six indices of the quad at
/// (stack, slice), which start at `6 * (stack * slices + slice)`, are
/// a, a + 1, b, b, a + 1, b + 1 with `a` that vertex and `b = a + slices + 1`
/// the vertex one stack below it.
pub proof fn lemma_sphere_quad_explicit(slices: int, stack: int, slice: int)
    ensures
        grid_slot(slices, stack, slice) == stack * (slices + 1) + slice,
        sphere_vertex_count(stack, slices) == (stack + 1) * (slices + 1),
        forall|k: int| #[trigger] quad_slot(slices, stack, slice, k) == 6 * (stack * slices + slice) + k,
        ({
            let a = stack * (slices + 1) + slice;
            let b = a + slices + 1;
            &&& sphere_quad_index(slices, stack, slice, 0) == a
            &&& sphere_quad_index(slices, stack, slice, 1) == a + 1
            &&& sphere_quad_index(slices, stack, slice, 2) == b
            &&& sphere_quad_index(slices, stack, slice, 3) == b
            &&& sphere_quad_index(slices, stack, slice, 4) == a + 1
            &&& sphere_quad_index(slices, stack, slice, 5) == b + 1
        }),
{
    lemma_next_row(slices + 1, stack);
}

/// Turn, in the (slice, stack) parameter plane, of the grid points of
/// triangle `i` of a sphere layout.
pub open spec fn grid_turn(t: Topology<GridPoint>, i: int) -> int {
    let p0 = t.vertices@[t.indices@[3 * i] as int];
    let p1 = t.vertices@[t.indices@[3 * i + 1] as int];
    let p2 = t.vertices@[t.indices@[3 * i + 2] as int];
    (p1.slice - p0.slice) * (p2.stack - p0.stack) - (p1.stack - p0.stack) * (p2.slice - p0.slice)
}

/// Every triangle of the sphere is a half grid cell wound the same way: in
/// the (slice, stack) parameter plane each one turns by +1, so all of them
/// face the same side of the surface.
pub open spec fn sphere_wound_uniformly(t: Topology<GridPoint>) -> bool {
    forall|i: int| 0 <= i < t.indices@.len() / 3 ==> #[trigger] grid_turn(t, i) == 1
}

proof fn lemma_sphere_winding(t: Topology<GridPoint>, stacks: int, slices: int)
    requires
        0 <= stacks,
        0 <= slices,
        t.vertices@.len() == sphere_vertex_count(stacks, slices),
        forall|st: int, sl: int|
            0 <= st <= stacks && 0 <= sl <= slices ==> {
                let p = #[trigger] t.vertices@[grid_slot(slices, st, sl)];
                p.stack == st && p.slice == sl
            },
        t.indices@.len() == 6 * (stacks * slices),
        forall|st: int, sl: int, k: int|
            0 <= st < stacks && 0 <= sl < slices && 0 <= k < 6 ==> #[trigger] t.indices@[quad_slot(
                slices,
                st,
                sl,
                k,
            )] == sphere_quad_index(slices, st, sl, k),
    ensures
        sphere_wound_uniformly(t),
{
    assert forall|i: int| 0 <= i < t.indices@.len() / 3 implies #[trigger] grid_turn(t, i) == 1 by {
        let q = i / 2;
        let h = i % 2;
        assert(slices > 0) by (nonlinear_arith)
            requires
                0 <= i < t.indices@.len() / 3,
                t.indices@.len() == 6 * (stacks * slices),
                0 <= slices,
                0 <= stacks,
        ;
        let st = q / slices;
        let sl = q % slices;
        assert(q == st * slices + sl) by (nonlinear_arith)
            requires
                slices > 0,
                st == q / slices,
                sl == q % slices,
        ;
        assert(0 <= q < stacks * slices);
        assert(0 <= sl < slices);
        assert(0 <= st < stacks) by (nonlinear_arith)
            requires
                q == st * slices + sl,
                0 <= sl < slices,
                0 <= q < stacks * slices,
                slices > 0,
        ;
        lemma_sphere_quad_explicit(slices, st, sl);
        lemma_sphere_quad_explicit(slices, st + 1, sl);
        let a = st * (slices + 1) + sl;
        let b = a + slices + 1;
        assert(b == grid_slot(slices, st + 1, sl));
        assert(a + 1 == grid_slot(slices, st, sl + 1));
        assert(b + 1 == grid_slot(slices, st + 1, sl + 1));
        assert(3 * i == quad_slot(slices, st, sl, 3 * h));
        assert(3 * i + 1 == quad_slot(slices, st, sl, 3 * h + 1));
        assert(3 * i + 2 == quad_slot(slices, st, sl, 3 * h + 2));
        let pa = t.vertices@[grid_slot(slices, st, sl)];
        let pa1 = t.vertices@[grid_slot(slices, st, sl + 1)];
        let pb = t.vertices@[grid_slot(slices, st + 1, sl)];
        let pb1 = t.vertices@[grid_slot(slices, st + 1, sl + 1)];
        if h == 0 {
            assert(t.indices@[quad_slot(slices, st, sl, 0)] == sphere_quad_index(slices, st, sl, 0));
            assert(t.indices@[quad_slot(slices, st, sl, 1)] == sphere_quad_index(slices, st, sl, 1));
            assert(t.indices@[quad_slot(slices, st, sl, 2)] == sphere_quad_index(slices, st, sl, 2));
            assert(grid_turn(t, i) == (pa1.slice - pa.slice) * (pb.stack - pa.stack) - (pa1.stack
                - pa.stack) * (pb.slice - pa.slice));
            assert((pa1.slice - pa.slice) * (pb.stack - pa.stack) - (pa1.stack - pa.stack) * (
            pb.slice - pa.slice) == 1) by (nonlinear_arith)
                requires
                    pa1.slice - pa.slice == 1,
                    pb.stack - pa.stack == 1,
                    pa1.stack - pa.stack == 0,
                    pb.slice - pa.slice == 0,
            ;
        } else {
            assert(t.indices@[quad_slot(slices, st, sl, 3)] == sphere_quad_index(slices, st, sl, 3));
            assert(t.indices@[quad_slot(slices, st, sl, 4)] == sphere_quad_index(slices, st, sl, 4));
            assert(t.indices@[quad_slot(slices, st, sl, 5)] == sphere_quad_index(slices, st, sl, 5));
            assert(grid_turn(t, i) == (pa1.slice - pb.slice) * (pb1.stack - pb.stack) - (pa1.stack
                - pb.stack) * (pb1.slice - pb.slice));
            assert((pa1.slice - pb.slice) * (pb1.stack - pb.stack) - (pa1.stack - pb.stack) * (
            pb1.slice - pb.slice) == 1) by (nonlinear_arith)
                requires
                    pa1.slice - pb.slice == 1,
                    pb1.stack - pb.stack == 0,
                    pa1.stack - pb.stack == -1,
                    pb1.slice - pb.slice == 1,
            ;
        }
    }
}

// ── Cylinder ─────────────────────────────────────────────────────────────────

/// A vertex of the capped cylinder: on the side wall (ring step and which
/// end), at the centre of a cap, or on a cap's rim.
#[derive(Clone, Copy, Debug, PartialEq, Eq, Structural)]
pub enum CylinderVertex {
    Side { ring: u32, top: bool },
    CapCenter { top: bool },
    CapRim { ring: u32, top: bool },
}

pub open spec fn is_side(v: CylinderVertex, ring: int, top: bool) -> bool {
    v matches CylinderVertex::Side { ring: r, top: t } && r == ring && t == top
}

pub open spec fn is_cap_center(v: CylinderVertex, top: bool) -> bool {
    v matches CylinderVertex::CapCenter { top: t } && t == top
}

pub open spec fn is_cap_rim(v: CylinderVertex, ring: int, top: bool) -> bool {
    v matches CylinderVertex::CapRim { ring: r, top: t } && r == ring && t == top
}

/// Number of vertices of a cylinder with `slices` steps around its axis.
pub open spec fn cylinder_vertex_count(slices: int) -> int {
    4 * slices + 4
}

/// Buffer position of the centre of the bottom (`top == false`) or top cap;
/// the cap's rim follows it.
pub open spec fn cap_center_slot(slices: int, top: bool) -> int {
    if top {
        3 * slices + 3
    } else {
        2 * slices + 2
    }
}

/// The `k`-th index of the side quad between ring steps `i` and `i + 1`:
/// with `b = 2 i`, the triangles are (b, b + 1, b + 3) and (b, b + 3, b + 2).
pub open spec fn side_quad_index(i: int, k: int) -> int {
    let b = 2 * i;
    if k == 0 || k == 3 {
        b
    } else if k == 1 {
        b + 1
    } else if k == 2 || k == 4 {
        b + 3
    } else {
        b + 2
    }
}

/// Buffer position of the `k`-th index of cap triangle `i`.
pub open spec fn cap_index_slot(slices: int, top: bool, i: int, k: int) -> int {
    if top {
        9 * slices + 3 * i + k
    } else {
        6 * slices + 3 * i + k
    }
}

/// The `k`-th index of cap triangle `i`, which joins the cap's centre to rim
/// steps `i` and `(i + 1) % slices`: (centre, i, next) on the top cap and
/// (centre, next, i) on the bottom cap, so that each faces away from the
/// cylinder.
pub open spec fn cap_index(slices: int, top: bool, i: int, k: int) -> int {
    let center = cap_center_slot(slices, top);
    let curr = center + 1 + i;
    let next = center + 1 + (i + 1) % slices;
    if k == 0 {
        center
    } else if (k == 1) == top {
        curr
    } else {
        next
    }
}

/// Layout of the capped vertical cylinder (`cylinder` in the renderer) with
/// `slices` steps around its axis: the side wall as bottom/top vertex pairs
/// for ring steps 0 to `slices` (the last repeats the first position, for
/// the texture seam), then each cap as a centre and `slices` rim vertices.
/// The bound on `slices` is the one under which every index fits in a `u32`.
pub fn cylinder_layout(slices: u32) -> (t: Topology<CylinderVertex>)
    requires
        cylinder_vertex_count(slices as int) <= 0x1_0000_0000,
    ensures
        t.vertices@.len() == cylinder_vertex_count(slices as int),
        forall|i: int|
            0 <= i <= slices ==> is_side(#[trigger] t.vertices@[2 * i], i, false) && is_side(
                t.vertices@[2 * i + 1],
                i,
                true,
            ),
        is_cap_center(t.vertices@[cap_center_slot(slices as int, false)], false),
        is_cap_center(t.vertices@[cap_center_slot(slices as int, true)], true),
        forall|i: int|
            0 <= i < slices ==> is_cap_rim(
                #[trigger] t.vertices@[cap_center_slot(slices as int, false) + 1 + i],
                i,
                false,
            ),
        forall|i: int|
            0 <= i < slices ==> is_cap_rim(
                #[trigger] t.vertices@[cap_center_slot(slices as int, true) + 1 + i],
                i,
                true,
            ),
        t.indices@.len() == 12 * slices,
        forall|i: int, k: int|
            0 <= i < slices && 0 <= k < 6 ==> #[trigger] t.indices@[6 * i + k] == side_quad_index(
                i,
                k,
            ),
        forall|i: int, k: int|
            0 <= i < slices && 0 <= k < 3 ==> #[trigger] t.indices@[cap_index_slot(
                slices as int,
                false,
                i,
                k,
            )] == cap_index(slices as int, false, i, k),
        forall|i: int, k: int|
            0 <= i < slices && 0 <= k < 3 ==> #[trigger] t.indices@[cap_index_slot(
                slices as int,
                true,
                i,
                k,
            )] == cap_index(slices as int, true, i, k),
        forall|i: int, k: int|
            0 <= i < slices && 0 <= k < 6 ==> #[trigger] t.indices@[6 * i + k] == 2 * i + (if k == 0
                || k == 3 {
                0int
            } else if k == 1 {
                1int
            } else if k == 2 || k == 4 {
                3int
            } else {
                2int
            }),
        forall|i: int|
            0 <= i < slices ==> {
                let q = #[trigger] cap_index_slot(slices as int, false, i, 0);
                &&& q == 6 * slices + 3 * i
                &&& t.indices@[q] == 2 * slices + 2
                &&& t.indices@[q + 1] == 2 * slices + 3 + (i + 1) % (slices as int)
                &&& t.indices@[q + 2] == 2 * slices + 3 + i
                &&& is_cap_center(t.vertices@[t.indices@[q] as int], false)
                &&& is_cap_rim(
                    t.vertices@[t.indices@[q + 1] as int],
                    if i + 1 < slices {
                        i + 1
                    } else {
                        0
                    },
                    false,
                )
                &&& is_cap_rim(t.vertices@[t.indices@[q + 2] as int], i, false)
            },
        forall|i: int|
            0 <= i < slices ==> {
                let q = #[trigger] cap_index_slot(slices as int, true, i, 0);
                &&& q == 9 * slices + 3 * i
                &&& t.indices@[q] == 3 * slices + 3
                &&& t.indices@[q + 1] == 3 * slices + 4 + i
                &&& t.indices@[q + 2] == 3 * slices + 4 + (i + 1) % (slices as int)
                &&& is_cap_center(t.vertices@[t.indices@[q] as int], true)
                &&& is_cap_rim(t.vertices@[t.indices@[q + 1] as int], i, true)
                &&& is_cap_rim(
                    t.vertices@[t.indices@[q + 2] as int],
                    if i + 1 < slices {
                        i + 1
                    } else {
                        0
                    },
                    true,
                )
            },
        t.well_formed(),
{
    let mut vertices: Vec<CylinderVertex> = Vec::new();
    let mut indices: Vec<u32> = Vec::new();
    // Side wall
    let mut i: u64 = 0;
    while i <= slices as u64
        invariant
            i <= slices + 1,
            vertices@.len() == 2 * i,
            forall|j: int|
                0 <= j < i ==> is_side(#[trigger] vertices@[2 * j], j, false) && is_side(
                    vertices@[2 * j + 1],
                    j,
                    true,
                ),
        decreases slices + 1 - i,
    {
        vertices.push(CylinderVertex::Side { ring: i as u32, top: false });
        vertices.push(CylinderVertex::Side { ring: i as u32, top: true });
        assert(is_side(vertices@[2 * i], i as int, false));
        i = i + 1;
    }
    let mut i: u32 = 0;
    while i < slices
        invariant
            cylinder_vertex_count(slices as int) <= 0x1_0000_0000,
            i <= slices,
            indices@.len() == 6 * i,
            forall|j: int|
                0 <= j < indices@.len() ==> (#[trigger] indices@[j] as int)
                    < cylinder_vertex_count(slices as int),
            forall|j: int, k: int|
                0 <= j < i && 0 <= k < 6 ==> #[trigger] indices@[6 * j + k] == side_quad_index(
                    j,
                    k,
                ),
        decreases slices - i,
    {
        let b: u32 = i * 2;
        indices.push(b);
        indices.push(b + 1);
        indices.push(b + 3);
        indices.push(b);
        indices.push(b + 3);
        indices.push(b + 2);
        assert forall|j: int, k: int| 0 <= j < i + 1 && 0 <= k < 6 implies #[trigger] indices@[6
            * j + k] == side_quad_index(j, k) by {
            if j == i {
                assert(6 * j + k == 6 * i + k);
            }
        }
        i = i + 1;
    }
    let ghost sides = vertices@;
    let ghost side_indices = indices@;
    push_cap(&mut vertices, &mut indices, slices, false);
    let ghost bottom = vertices@;
    let ghost bottom_indices = indices@;
    push_cap(&mut vertices, &mut indices, slices, true);
    let t = Topology { vertices, indices };
    assert forall|i: int| 0 <= i <= slices implies is_side(#[trigger] t.vertices@[2 * i], i, false)
        && is_side(t.vertices@[2 * i + 1], i, true) by {
        assert(sides[2 * i] == bottom[2 * i]);
        assert(sides[2 * i + 1] == bottom[2 * i + 1]);
    }
    assert(bottom[cap_center_slot(slices as int, false)] == t.vertices@[cap_center_slot(
        slices as int,
        false,
    )]);
    assert forall|i: int| 0 <= i < slices implies is_cap_rim(
        #[trigger] t.vertices@[cap_center_slot(slices as int, false) + 1 + i],
        i,
        false,
    ) by {
        assert(bottom[cap_center_slot(slices as int, false) + 1 + i] == t.vertices@[cap_center_slot(
            slices as int,
            false,
        ) + 1 + i]);
    }
    assert forall|i: int, k: int| 0 <= i < slices && 0 <= k < 6 implies #[trigger] t.indices@[6
        * i + k] == side_quad_index(i, k) by {
        assert(side_indices[6 * i + k] == bottom_indices[6 * i + k]);
    }
    assert forall|i: int, k: int| 0 <= i < slices && 0 <= k < 3 implies #[trigger] t.indices@[cap_index_slot(
        slices as int,
        false,
        i,
        k,
    )] == cap_index(slices as int, false, i, k) by {
        assert(bottom_indices[cap_index_slot(slices as int, false, i, k)] == t.indices@[cap_index_slot(
            slices as int,
            false,
            i,
            k,
        )]);
    }
    proof {
        assert((12 * slices) % 3 == 0) by (nonlinear_arith);
        let n = slices as int;
        assert forall|i: int, k: int| 0 <= i < slices && 0 <= k < 6 implies #[trigger] t.indices@[6
            * i + k] == 2 * i + (if k == 0 || k == 3 {
            0int
        } else if k == 1 {
            1int
        } else if k == 2 || k == 4 {
            3int
        } else {
            2int
        }) by {
            lemma_side_quad_explicit(i, k);
        }
        assert forall|i: int| 0 <= i < slices implies {
            let q = #[trigger] cap_index_slot(n, false, i, 0);
            &&& q == 6 * slices + 3 * i
            &&& t.indices@[q] == 2 * slices + 2
            &&& t.indices@[q + 1] == 2 * slices + 3 + (i + 1) % n
            &&& t.indices@[q + 2] == 2 * slices + 3 + i
            &&& is_cap_center(t.vertices@[t.indices@[q] as int], false)
            &&& is_cap_rim(
                t.vertices@[t.indices@[q + 1] as int],
                if i + 1 < slices {
                    i + 1
                } else {
                    0
                },
                false,
            )
            &&& is_cap_rim(t.vertices@[t.indices@[q + 2] as int], i, false)
        } by {
            lemma_cap_explicit(n, false, i);
            lemma_next_rim_step(i, n);
            assert(t.indices@[cap_index_slot(n, false, i, 0)] == cap_index(n, false, i, 0));
            assert(t.indices@[cap_index_slot(n, false, i, 1)] == cap_index(n, false, i, 1));
            assert(t.indices@[cap_index_slot(n, false, i, 2)] == cap_index(n, false, i, 2));
            let nx = if i + 1 < slices { i + 1 } else { 0 };
            assert(is_cap_rim(t.vertices@[cap_center_slot(n, false) + 1 + nx], nx, false));
            assert(is_cap_rim(t.vertices@[cap_center_slot(n, false) + 1 + i], i, false));
        }
        assert forall|i: int| 0 <= i < slices implies {
            let q = #[trigger] cap_index_slot(n, true, i, 0);
            &&& q == 9 * slices + 3 * i
            &&& t.indices@[q] == 3 * slices + 3
            &&& t.indices@[q + 1] == 3 * slices + 4 + i
            &&& t.indices@[q + 2] == 3 * slices + 4 + (i + 1) % n
            &&& is_cap_center(t.vertices@[t.indices@[q] as int], true)
            &&& is_cap_rim(t.vertices@[t.indices@[q + 1] as int], i, true)
            &&& is_cap_rim(
                t.vertices@[t.indices@[q + 2] as int],
                if i + 1 < slices {
                    i + 1
                } else {
                    0
                },
                true,
            )
        } by {
            lemma_cap_explicit(n, true, i);
            lemma_next_rim_step(i, n);
            assert(t.indices@[cap_index_slot(n, true, i, 0)] == cap_index(n, true, i, 0));
            assert(t.indices@[cap_index_slot(n, true, i, 1)] == cap_index(n, true, i, 1));
            assert(t.indices@[cap_index_slot(n, true, i, 2)] == cap_index(n, true, i, 2));
            let nx = if i + 1 < slices { i + 1 } else { 0 };
            assert(is_cap_rim(t.vertices@[cap_center_slot(n, true) + 1 + nx], nx, true));
            assert(is_cap_rim(t.vertices@[cap_center_slot(n, true) + 1 + i], i, true));
        }
    }
    t
}

/// Around a cap, the rim step after step `i` is `i + 1`, and after the last
/// step the rim closes back on step 0.
pub proof fn lemma_next_rim_step(i: int, slices: int)
    requires
        0 <= i < slices,
    ensures
        (i + 1) % slices == if i + 1 < slices {
            i + 1
        } else {
            0
        },
{
    if i + 1 < slices {
        vstd::arithmetic::div_mod::lemma_small_mod((i + 1) as nat, slices as nat);
    } else {
        vstd::arithmetic::div_mod::lemma_mod_self_0(slices);
    }
}

/// The side-wall index formula, written out: quad `i` joins the bottom and
/// top vertices of ring steps `i` and `i + 1` as (2i, 2i+1, 2i+3) and
/// (2i, 2i+3, 2i+2).
pub proof fn lemma_side_quad_explicit(i: int, k: int)
    ensures
        side_quad_index(i, k) == 2 * i + (if k == 0 || k == 3 {
            0int
        } else if k == 1 {
            1int
        } else if k == 2 || k == 4 {
            3int
        } else {
            2int
        }),
{
}

/// The cap formulas, written out: the bottom cap's centre is vertex
/// 2 slices + 2 and its triangles start at index 6 slices; the top cap's
/// centre is vertex 3 slices + 3 and its triangles start at index 9 slices.
/// Triangle `i` is (centre, next, current) on the bottom cap and
/// (centre, current, next) on the top, with current the rim vertex of step
/// `i` and next that of step `(i + 1) % slices`.
pub proof fn lemma_cap_explicit(slices: int, top: bool, i: int)
    ensures
        cap_center_slot(slices, top) == if top {
            3 * slices + 3
        } else {
            2 * slices + 2
        },
        forall|k: int| #[trigger] cap_index_slot(slices, top, i, k) == (if top {
            9 * slices
        } else {
            6 * slices
        }) + 3 * i + k,
        cap_index(slices, top, i, 0) == cap_center_slot(slices, top),
        cap_index(slices, top, i, if top {
            1int
        } else {
            2int
        }) == cap_center_slot(slices, top) + 1 + i,
        cap_index(slices, top, i, if top {
            2int
        } else {
            1int
        }) == cap_center_slot(slices, top) + 1 + (i + 1) % slices,
        cylinder_vertex_count(slices) == 4 * slices + 4,
{
}

/// What the cylinder vertex predicates mean: each says the vertex is exactly
/// that kind of vertex with that ring step and end.
pub proof fn lemma_cylinder_vertex_kinds(v: CylinderVertex, ring: u32, top: bool)
    ensures
        is_side(v, ring as int, top) == (v == CylinderVertex::Side { ring, top }),
        is_cap_center(v, top) == (v == CylinderVertex::CapCenter { top }),
        is_cap_rim(v, ring as int, top) == (v == CylinderVertex::CapRim { ring, top }),
{
}

/// Appends one cap of the cylinder: its centre, its `slices` rim vertices and
/// the fan of triangles joining them.
fn push_cap(vertices: &mut Vec<CylinderVertex>, indices: &mut Vec<u32>, slices: u32, top: bool)
    requires
        cylinder_vertex_count(slices as int) <= 0x1_0000_0000,
        old(vertices)@.len() == cap_center_slot(slices as int, top),
        old(indices)@.len() == cap_index_slot(slices as int, top, 0, 0),
        forall|j: int|
            0 <= j < old(indices)@.len() ==> (#[trigger] old(indices)@[j] as int)
                < cylinder_vertex_count(slices as int),
    ensures
        final(vertices)@.len() == cap_center_slot(slices as int, top) + 1 + slices,
        forall|j: int|
            0 <= j < old(vertices)@.len() ==> #[trigger] final(vertices)@[j] == old(vertices)@[j],
        is_cap_center(final(vertices)@[cap_center_slot(slices as int, top)], top),
        forall|i: int|
            0 <= i < slices ==> is_cap_rim(
                #[trigger] final(vertices)@[cap_center_slot(slices as int, top) + 1 + i],
                i,
                top,
            ),
        final(indices)@.len() == old(indices)@.len() + 3 * slices,
        forall|j: int|
            0 <= j < old(indices)@.len() ==> #[trigger] final(indices)@[j] == old(indices)@[j],
        forall|j: int|
            0 <= j < final(indices)@.len() ==> (#[trigger] final(indices)@[j] as int)
                < cylinder_vertex_count(slices as int),
        forall|i: int, k: int|
            0 <= i < slices && 0 <= k < 3 ==> #[trigger] final(indices)@[cap_index_slot(
                slices as int,
                top,
                i,
                k,
            )] == cap_index(slices as int, top, i, k),
{
    let ghost old_vertices = vertices@;
    let ghost old_indices = indices@;
    let center: u32 = vertices.len() as u32;
    vertices.push(CylinderVertex::CapCenter { top });
    let ring_start: u32 = center + 1;
    let mut i: u32 = 0;
    while i < slices
        invariant
            cylinder_vertex_count(slices as int) <= 0x1_0000_0000,
            center == cap_center_slot(slices as int, top),
            old_vertices.len() == center,
            ring_start == center + 1,
            i <= slices,
            vertices@.len() == ring_start + i,
            forall|j: int| 0 <= j < old_vertices.len() ==> #[trigger] vertices@[j] == old_vertices[j],
            is_cap_center(vertices@[center as int], top),
            forall|j: int| 0 <= j < i ==> is_cap_rim(#[trigger] vertices@[ring_start + j], j, top),
        decreases slices - i,
    {
        vertices.push(CylinderVertex::CapRim { ring: i, top });
        i = i + 1;
    }
    let mut i: u32 = 0;
    while i < slices
        invariant
            cylinder_vertex_count(slices as int) <= 0x1_0000_0000,
            center == cap_center_slot(slices as int, top),
            ring_start == center + 1,
            i <= slices,
            indices@.len() == old_indices.len() + 3 * i,
            old_indices.len() == cap_index_slot(slices as int, top, 0, 0),
            forall|j: int| 0 <= j < old_indices.len() ==> #[trigger] indices@[j] == old_indices[j],
            forall|j: int|
                0 <= j < indices@.len() ==> (#[trigger] indices@[j] as int)
                    < cylinder_vertex_count(slices as int),
            forall|j: int, k: int|
                0 <= j < i && 0 <= k < 3 ==> #[trigger] indices@[cap_index_slot(
                    slices as int,
                    top,
                    j,
                    k,
                )] == cap_index(slices as int, top, j, k),
        decreases slices - i,
    {
        let curr: u32 = ring_start + i;
        let next: u32 = ring_start + (i + 1) % slices;
        let ghost before = indices@;
        if top {
            indices.push(center);
            indices.push(curr);
            indices.push(next);
        } else {
            indices.push(center);
            indices.push(next);
            indices.push(curr);
        }
        assert forall|j: int, k: int| 0 <= j < i + 1 && 0 <= k < 3 implies #[trigger] indices@[cap_index_slot(
            slices as int,
            top,
            j,
            k,
        )] == cap_index(slices as int, top, j, k) by {
            if j == i {
                assert(cap_index_slot(slices as int, top, j, k) == before.len() + k);
            } else {
                assert(cap_index_slot(slices as int, top, j, k) < before.len());
            }
        }
        i = i + 1;
    }
}

} // verus!
