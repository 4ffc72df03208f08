//! The one primitive shape: a unit cube centred on the origin, one normal per face.

use vstd::prelude::*;

verus! {

/// Faces of a cube, two per axis, the positive one first.
pub const FACES: usize = 6;

/// The axis a face stands on.
pub open spec fn axis_of(face: int) -> int {
    face / 2
}

/// Which way along its axis a face looks.
pub open spec fn sign_of(face: int) -> int {
    if face % 2 == 0 {
        1
    } else {
        -1
    }
}

/// The axis along which a face's first tangent runs. Swapping the tangents for the
/// negative face keeps every face wound counter-clockwise seen from outside.
pub open spec fn first_tangent(face: int) -> int {
    if face % 2 == 0 {
        (axis_of(face) + 1) % 3
    } else {
        (axis_of(face) + 2) % 3
    }
}

/// Where corner `c` of a face lies along its first tangent.
pub open spec fn first_step(c: int) -> int {
    if c == 1 || c == 2 {
        1
    } else {
        -1
    }
}

/// Where corner `c` of a face lies along its second tangent.
pub open spec fn second_step(c: int) -> int {
    if c >= 2 {
        1
    } else {
        -1
    }
}

/// Coordinate `k` of corner `c` of a face, in half units.
pub open spec fn corner(face: int, c: int, k: int) -> int {
    if k == axis_of(face) {
        sign_of(face)
    } else if k == first_tangent(face) {
        first_step(c)
    } else {
        second_step(c)
    }
}

/// Coordinate `k` of a face's normal.
pub open spec fn normal(face: int, k: int) -> int {
    if k == axis_of(face) {
        sign_of(face)
    } else {
        0
    }
}

/// Corner used by index `j` of a face's two triangles.
pub open spec fn triangle_corner(j: int) -> int {
    if j == 1 {
        1
    } else if j == 2 || j == 4 {
        2
    } else if j == 5 {
        3
    } else {
        0
    }
}

/// Corner coordinates, face by face.
pub open spec fn positions() -> Seq<i8> {
    Seq::new(72, |i: int| corner(i / 12, i / 3 % 4, i % 3) as i8)
}

/// Normal coordinates, face by face.
pub open spec fn normals() -> Seq<i8> {
    Seq::new(72, |i: int| normal(i / 12, i % 3) as i8)
}

/// Corner numbers, two triangles to a face.
pub open spec fn triangles() -> Seq<u16> {
    Seq::new(36, |i: int| (i / 6 * 4 + triangle_corner(i % 6)) as u16)
}

/// Corner coordinates in half units, normals, and corner numbers of the triangles.
pub fn cube() -> (mesh: (Vec<i8>, Vec<i8>, Vec<u16>))
    ensures
        mesh.0@ == positions(),
        mesh.1@ == normals(),
        mesh.2@ == triangles(),
{
    let mut pos: Vec<i8> = Vec::new();
    let mut nrm: Vec<i8> = Vec::new();
    let mut idx: Vec<u16> = Vec::new();
    let mut face: usize = 0;
    while face < FACES
        invariant
            face <= FACES,
            pos@ == positions().take(12 * face),
            nrm@ == normals().take(12 * face),
            idx@ == triangles().take(6 * face),
        decreases FACES - face,
    {
        let axis: usize = face / 2;
        let sign: i8 = if face % 2 == 0 {
            1
        } else {
            -1
        };
        let tangent: usize = if face % 2 == 0 {
            (axis + 1) % 3
        } else {
            (axis + 2) % 3
        };
        let base: u16 = (4 * face) as u16;
        let mut c: usize = 0;
        while c < 4
            invariant
                c <= 4,
                face < FACES,
                axis == axis_of(face as int),
                sign == sign_of(face as int),
                tangent == first_tangent(face as int),
                pos@ == positions().take(12 * face + 3 * c),
                nrm@ == normals().take(12 * face + 3 * c),
            decreases 4 - c,
        {
            let su: i8 = if c == 1 || c == 2 {
                1
            } else {
                -1
            };
            let sv: i8 = if c >= 2 {
                1
            } else {
                -1
            };
            let mut k: usize = 0;
            while k < 3
                invariant
                    k <= 3,
                    c < 4,
                    face < FACES,
                    axis == axis_of(face as int),
                    sign == sign_of(face as int),
                    tangent == first_tangent(face as int),
                    su == first_step(c as int),
                    sv == second_step(c as int),
                    pos@ == positions().take(12 * face + 3 * c + k),
                    nrm@ == normals().take(12 * face + 3 * c + k),
                decreases 3 - k,
            {
                let ghost i = 12 * face + 3 * c + k;
                assert(i / 12 == face && i / 3 % 4 == c && i % 3 == k);
                pos.push(
                    if k == axis {
                        sign
                    } else if k == tangent {
                        su
                    } else {
                        sv
                    },
                );
                nrm.push(
                    if k == axis {
                        sign
                    } else {
                        0
                    },
                );
                k = k + 1;
                assert(pos@ =~= positions().take(i + 1));
                assert(nrm@ =~= normals().take(i + 1));
            }
            c = c + 1;
        }
        idx.push(base);
        idx.push(base + 1);
        idx.push(base + 2);
        idx.push(base);
        idx.push(base + 2);
        idx.push(base + 3);
        assert(idx@ =~= triangles().take(6 * face + 6));
        face = face + 1;
    }
    assert(pos@ =~= positions());
    assert(nrm@ =~= normals());
    assert(idx@ =~= triangles());
    (pos, nrm, idx)
}

/// The edge from the first corner of a face to corner `c`.
pub open spec fn edge(face: int, c: int, k: int) -> int {
    corner(face, c, k) - corner(face, 0, k)
}

/// Coordinate `k` of the cross product of two of a face's edges.
pub open spec fn cross(face: int, c: int, d: int, k: int) -> int {
    let i = (k + 1) % 3;
    let j = (k + 2) % 3;
    edge(face, c, i) * edge(face, d, j) - edge(face, c, j) * edge(face, d, i)
}

/// Every face is wound counter-clockwise seen from outside: both of its triangles
/// turn about the face's normal.
pub proof fn every_face_looks_outward(face: int, k: int)
    requires
        0 <= face < 6,
        0 <= k < 3,
    ensures
        cross(face, 1, 2, k) == 4 * normal(face, k),
        cross(face, 2, 3, k) == 4 * normal(face, k),
{
    let i = (k + 1) % 3;
    let j = (k + 2) % 3;
    assert(face == 0 || face == 1 || face == 2 || face == 3 || face == 4 || face == 5);
    assert(k == 0 || k == 1 || k == 2);
    lemma_products(edge(face, 1, i), edge(face, 2, j), edge(face, 1, j), edge(face, 2, i));
    lemma_products(edge(face, 2, i), edge(face, 3, j), edge(face, 2, j), edge(face, 3, i));
}

/// Products of edge coordinates, which are all 0, 2 or -2.
proof fn lemma_products(a: int, b: int, c: int, d: int)
    by (nonlinear_arith)
    requires
        a == 0 || a == 2 || a == -2,
        b == 0 || b == 2 || b == -2,
        c == 0 || c == 2 || c == -2,
        d == 0 || d == 2 || d == -2,
    ensures
        a * b == (if a == 0 || b == 0 {
            0int
        } else if a == b {
            4int
        } else {
            -4int
        }),
        c * d == (if c == 0 || d == 0 {
            0int
        } else if c == d {
            4int
        } else {
            -4int
        }),
{
}

/// A face lies in the plane half a unit out along its normal, and its normal is of unit
/// length along one axis: the faces come in pairs, x before y before z, the positive one
/// first.
pub proof fn a_face_lies_out_along_its_normal(face: int, c: int, k: int)
    requires
        0 <= face < 6,
        0 <= c < 4,
        0 <= k < 3,
    ensures
        positions().len() == 72,
        normals().len() == 72,
        ({
            let p = positions()[12 * face + 3 * c + k];
            let n = normals()[12 * face + 3 * c + k];
            &&& p == 1 || p == -1
            &&& k == face / 2 ==> n == p
            &&& k == face / 2 ==> n == (if face % 2 == 0 {
                1int
            } else {
                -1int
            })
            &&& k != face / 2 ==> n == 0
        }),
{
}

/// Where corner `c` of a face stands among the coordinates.
proof fn lemma_position(face: int, c: int, k: int)
    requires
        0 <= face < 6,
        0 <= c < 4,
        0 <= k < 3,
    ensures
        positions()[12 * face + 3 * c + k] == corner(face, c, k),
{
}

/// Going round a face from corner to corner changes one coordinate at a time: along one
/// of the two axes the face does not stand on, and along the other at the next corner.
pub proof fn corners_go_round_their_face(face: int, c: int, k: int)
    requires
        0 <= face < 6,
        0 <= c < 4,
        0 <= k < 3,
    ensures
        ({
            let a = 12 * face + 3 * c + k;
            let b = 12 * face + 3 * ((c + 1) % 4) + k;
            let d = 12 * face + 3 * ((c + 2) % 4) + k;
            let first = positions()[a] != positions()[b];
            let second = positions()[b] != positions()[d];
            &&& k == face / 2 ==> !first && !second
            &&& k != face / 2 ==> first != second
        }),
{
    lemma_position(face, c, k);
    lemma_position(face, (c + 1) % 4, k);
    lemma_position(face, (c + 2) % 4, k);
}

/// A face's two triangles share its first and third corner.
pub proof fn two_triangles_cover_a_face(face: int)
    requires
        0 <= face < 6,
    ensures
        triangles().len() == 36,
        triangles()[6 * face] == 4 * face,
        triangles()[6 * face + 1] == 4 * face + 1,
        triangles()[6 * face + 2] == 4 * face + 2,
        triangles()[6 * face + 3] == 4 * face,
        triangles()[6 * face + 4] == 4 * face + 2,
        triangles()[6 * face + 5] == 4 * face + 3,
{
}

} // verus!
