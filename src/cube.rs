use vstd::prelude::*;

verus! {

/// An integer vector of the cube template.
///
/// Positions are given in half-side units: a coordinate of `1` or `-1` stands
/// for `s/2` or `-s/2` on a cube of side length `s`, so that one template
/// serves every side length. Normals are plain axis-aligned unit vectors.
#[derive(Clone, Copy, Debug, PartialEq, Eq, Structural)]
pub struct Vector3 {
    pub x: i8,
    pub y: i8,
    pub z: i8,
}

/// A texture coordinate pair; each component is `0` or `1`.
#[derive(Clone, Copy, Debug, PartialEq, Eq, Structural)]
pub struct TexCoord {
    pub u: u8,
    pub v: u8,
}

/// Vertex and index data for one cube centred at the origin.
///
/// `positions`, `normals` and `uvs` run in parallel (one entry per vertex);
/// `indices` holds consecutive vertex triples, one triple per triangle.
#[derive(Debug)]
pub struct CubeGeometry {
    pub positions: Vec<Vector3>,
    pub normals: Vec<Vector3>,
    pub uvs: Vec<TexCoord>,
    pub indices: Vec<u32>,
}

pub open spec fn vec3(x: i8, y: i8, z: i8) -> Vector3 {
    Vector3 { x, y, z }
}

/// Corner `v` of the cube: corners `0..4` lie on the face `z = 1` and corners
/// `4..8` on the face `z = -1`, each four walked counter-clockwise around `+z`
/// from `x = y = -1`.
pub open spec fn corner(v: int) -> Vector3 {
    vec3(
        if v % 4 == 1 || v % 4 == 2 { 1i8 } else { -1i8 },
        if v % 4 >= 2 { 1i8 } else { -1i8 },
        if v < 4 { 1i8 } else { -1i8 },
    )
}

pub open spec fn cube_positions() -> Seq<Vector3> {
    Seq::new(8, |v: int| corner(v))
}

/// One outward face normal per vertex: `+z` for the front four, `-z` for the back four.
pub open spec fn cube_normals() -> Seq<Vector3> {
    Seq::new(8, |v: int| if v < 4 { vec3(0i8, 0i8, 1i8) } else { vec3(0i8, 0i8, -1i8) })
}

/// Texture coordinates: the front face is mapped straight, the back face mirrored in `u`.
pub open spec fn cube_uv(v: int) -> TexCoord {
    let right = v % 4 == 1 || v % 4 == 2;
    TexCoord { u: if right == (v < 4) { 1u8 } else { 0u8 }, v: if v % 4 >= 2 { 1u8 } else { 0u8 } }
}

pub open spec fn cube_uvs() -> Seq<TexCoord> {
    Seq::new(8, |v: int| cube_uv(v))
}

/// The corners of triangle `t`, in winding order. Triangles `2f` and `2f + 1`
/// cover face `f` of `face_normal`.
pub open spec fn triangle(t: int) -> (u32, u32, u32) {
    if t == 0 { (0, 1, 2) }
    else if t == 1 { (0, 2, 3) }
    else if t == 2 { (5, 6, 2) }
    else if t == 3 { (5, 2, 1) }
    else if t == 4 { (4, 7, 6) }
    else if t == 5 { (4, 6, 5) }
    else if t == 6 { (4, 0, 3) }
    else if t == 7 { (4, 3, 7) }
    else if t == 8 { (7, 3, 2) }
    else if t == 9 { (7, 2, 6) }
    else if t == 10 { (4, 5, 1) }
    else { (4, 1, 0) }
}

/// The index list: the corners of the twelve triangles, three by three.
pub open spec fn cube_indices() -> Seq<u32> {
    Seq::new(
        36,
        |k: int|
            {
                let tri = triangle(k / 3);
                if k % 3 == 0 { tri.0 } else if k % 3 == 1 { tri.1 } else { tri.2 }
            },
    )
}

/// The outward normal of face `f`: `+z`, `+x`, `-z`, `-x`, `+y`, `-y`.
pub open spec fn face_normal(f: int) -> Vector3 {
    if f == 0 {
        vec3(0i8, 0i8, 1i8)
    } else if f == 1 {
        vec3(1i8, 0i8, 0i8)
    } else if f == 2 {
        vec3(0i8, 0i8, -1i8)
    } else if f == 3 {
        vec3(-1i8, 0i8, 0i8)
    } else if f == 4 {
        vec3(0i8, 1i8, 0i8)
    } else {
        vec3(0i8, -1i8, 0i8)
    }
}

pub open spec fn dot(a: Vector3, b: Vector3) -> int {
    a.x * b.x + a.y * b.y + a.z * b.z
}

/// `b - a`, componentwise.
pub open spec fn edge(a: Vector3, b: Vector3) -> (int, int, int) {
    (b.x - a.x, b.y - a.y, b.z - a.z)
}

pub open spec fn cross(a: (int, int, int), b: (int, int, int)) -> (int, int, int) {
    (a.1 * b.2 - a.2 * b.1, a.2 * b.0 - a.0 * b.2, a.0 * b.1 - a.1 * b.0)
}

/// The position of the `k`-th corner of triangle `t`.
pub open spec fn triangle_corner(t: int, k: int) -> Vector3 {
    cube_positions()[cube_indices()[3 * t + k] as int]
}

/// The normal that the right-hand rule gives for triangle `t` from its vertex order.
pub open spec fn winding_normal(t: int) -> (int, int, int) {
    cross(
        edge(triangle_corner(t, 0), triangle_corner(t, 1)),
        edge(triangle_corner(t, 0), triangle_corner(t, 2)),
    )
}

pub open spec fn is_unit_sign(c: i8) -> bool {
    c == 1 || c == -1
}

/// Triangle `t` lies on face `t / 2` and its vertex order turns around that
/// face's outward normal.
pub open spec fn triangle_faces_outward(t: int) -> bool {
    let n = face_normal(t / 2);
    &&& dot(triangle_corner(t, 0), n) == 1
    &&& dot(triangle_corner(t, 1), n) == 1
    &&& dot(triangle_corner(t, 2), n) == 1
    &&& winding_normal(t) == (4 * n.x, 4 * n.y, 4 * n.z)
}

impl CubeGeometry {
    /// This geometry is the canonical unit-cube template.
    pub open spec fn is_unit_cube(&self) -> bool {
        &&& self.positions@ == cube_positions()
        &&& self.normals@ == cube_normals()
        &&& self.uvs@ == cube_uvs()
        &&& self.indices@ == cube_indices()
    }
}

/// Builds the unit-cube template: 8 corners at `(±1/2, ±1/2, ±1/2)` (in
/// half-side units, `±1`), a face normal and a texture coordinate per corner,
/// and 36 indices forming 12 outward-facing triangles.
pub fn build_unit_cube() -> (r: CubeGeometry)
    ensures
        r.is_unit_cube(),
{
    let positions = vec![
        Vector3 { x: -1, y: -1, z: 1 }, Vector3 { x: 1, y: -1, z: 1 },
        Vector3 { x: 1, y: 1, z: 1 }, Vector3 { x: -1, y: 1, z: 1 },
        Vector3 { x: -1, y: -1, z: -1 }, Vector3 { x: 1, y: -1, z: -1 },
        Vector3 { x: 1, y: 1, z: -1 }, Vector3 { x: -1, y: 1, z: -1 },
    ];
    let normals = vec![
        Vector3 { x: 0, y: 0, z: 1 }, Vector3 { x: 0, y: 0, z: 1 },
        Vector3 { x: 0, y: 0, z: 1 }, Vector3 { x: 0, y: 0, z: 1 },
        Vector3 { x: 0, y: 0, z: -1 }, Vector3 { x: 0, y: 0, z: -1 },
        Vector3 { x: 0, y: 0, z: -1 }, Vector3 { x: 0, y: 0, z: -1 },
    ];
    let uvs = vec![
        TexCoord { u: 0, v: 0 }, TexCoord { u: 1, v: 0 }, TexCoord { u: 1, v: 1 },
        TexCoord { u: 0, v: 1 }, TexCoord { u: 1, v: 0 }, TexCoord { u: 0, v: 0 },
        TexCoord { u: 0, v: 1 }, TexCoord { u: 1, v: 1 },
    ];
    let indices: Vec<u32> = vec![
        0, 1, 2, 0, 2, 3,
        5, 6, 2, 5, 2, 1,
        4, 7, 6, 4, 6, 5,
        4, 0, 3, 4, 3, 7,
        7, 3, 2, 7, 2, 6,
        4, 5, 1, 4, 1, 0,
    ];
    proof {
        assert(positions@ =~= cube_positions());
        assert(normals@ =~= cube_normals());
        assert(uvs@ =~= cube_uvs());
        assert(indices@ =~= cube_indices());
    }
    CubeGeometry { positions, normals, uvs, indices }
}

/// The template is well formed and every triangle faces outward: 8 corners
/// at `(±1, ±1, ±1)` half-sides, 8 normals each the outward normal of a face
/// through its corner, 8 texture coordinates in `[0, 1]`, and 36 indices
/// naming corners, whose 12 triangles lie two on each of the 6 faces with a
/// vertex order whose right-hand normal points away from the centre.
pub proof fn lemma_unit_cube_faces_outward()
    ensures
        cube_positions().len() == 8,
        cube_normals().len() == 8,
        cube_uvs().len() == 8,
        cube_indices().len() == 36,
        forall|k: int| 0 <= k < 36 ==> cube_indices()[k] < 8,
        forall|v: int|
            0 <= v < 8 ==> {
                let p = #[trigger] cube_positions()[v];
                is_unit_sign(p.x) && is_unit_sign(p.y) && is_unit_sign(p.z)
            },
        forall|v: int|
            0 <= v < 8 ==> exists|f: int|
                0 <= f < 6 && #[trigger] cube_normals()[v] == face_normal(f) && dot(
                    cube_positions()[v],
                    face_normal(f),
                ) == 1,
        forall|v: int| 0 <= v < 8 ==> #[trigger] cube_uvs()[v].u <= 1 && cube_uvs()[v].v <= 1,
        forall|t: int| 0 <= t < 12 ==> #[trigger] triangle_faces_outward(t),
{
    assert(triangle_faces_outward(0));
    assert(triangle_faces_outward(1));
    assert(triangle_faces_outward(2));
    assert(triangle_faces_outward(3));
    assert(triangle_faces_outward(4));
    assert(triangle_faces_outward(5));
    assert(triangle_faces_outward(6));
    assert(triangle_faces_outward(7));
    assert(triangle_faces_outward(8));
    assert(triangle_faces_outward(9));
    assert(triangle_faces_outward(10));
    assert(triangle_faces_outward(11));
    assert forall|t: int| 0 <= t < 12 implies #[trigger] triangle_faces_outward(t) by {
        assert(t == 0 || t == 1 || t == 2 || t == 3 || t == 4 || t == 5 || t == 6 || t == 7
            || t == 8 || t == 9 || t == 10 || t == 11);
    }
    assert forall|v: int| 0 <= v < 8 implies exists|f: int|
        0 <= f < 6 && #[trigger] cube_normals()[v] == face_normal(f) && dot(
            cube_positions()[v],
            face_normal(f),
        ) == 1 by {
        if v < 4 {
            assert(cube_normals()[v] == face_normal(0));
        } else {
            assert(cube_normals()[v] == face_normal(2));
        }
    }
}

} // verus!
