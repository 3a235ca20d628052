//! The faces of a mesh and their references to its vertices.

use vstd::prelude::*;
use crate::color::Color;
use crate::fixed::FIXED_ONE;
use crate::texture::Tex2;

verus! {

/// A triangular face of a mesh: the numbers of its three vertices, counted
/// from one, a texture coordinate for each of them, and its colour.
#[derive(Debug, Clone, Copy, PartialEq, Eq, Structural)]
pub struct Face {
    pub a: usize,
    pub b: usize,
    pub c: usize,
    pub a_uv: Tex2,
    pub b_uv: Tex2,
    pub c_uv: Tex2,
    pub color: Color,
}

/// Why a mesh cannot be used.
#[derive(Debug, Clone, Copy, PartialEq, Eq, Structural)]
pub enum MeshError {
    /// The face at this place names a vertex that the mesh does not have.
    FaceIndexOutOfRange { face: usize },
}

impl Face {
    /// Whether each vertex number of the face names one of `vertex_count`
    /// vertices.
    pub open spec fn valid_for(&self, vertex_count: int) -> bool {
        &&& 1 <= self.a <= vertex_count
        &&& 1 <= self.b <= vertex_count
        &&& 1 <= self.c <= vertex_count
    }

    /// The places of the three vertices in a sequence of `vertex_count`
    /// vertices, counted from zero, if the mesh has them all.
    pub fn vertex_indices(&self, vertex_count: usize) -> (indices: Option<(usize, usize, usize)>)
        ensures
            indices.is_some() == self.valid_for(vertex_count as int),
            indices.is_some() ==> indices.unwrap() == (
                (self.a - 1) as usize,
                (self.b - 1) as usize,
                (self.c - 1) as usize,
            ),
    {
        if 1 <= self.a && self.a <= vertex_count && 1 <= self.b && self.b <= vertex_count && 1
            <= self.c && self.c <= vertex_count {
            Some((self.a - 1, self.b - 1, self.c - 1))
        } else {
            None
        }
    }
}

/// Checks that every face names vertices that a mesh of `vertex_count`
/// vertices has, and reports the first face that does not.
pub fn check_faces(faces: &Vec<Face>, vertex_count: usize) -> (checked: Result<(), MeshError>)
    ensures
        checked.is_ok() <==> forall|i: int|
            0 <= i < faces@.len() ==> (#[trigger] faces@[i]).valid_for(vertex_count as int),
        match checked {
            Ok(_) => true,
            Err(MeshError::FaceIndexOutOfRange { face }) => {
                &&& face < faces@.len()
                &&& !faces@[face as int].valid_for(vertex_count as int)
                &&& forall|i: int|
                    0 <= i < face ==> (#[trigger] faces@[i]).valid_for(vertex_count as int)
            },
        },
{
    let mut i: usize = 0;
    while i < faces.len()
        invariant
            i <= faces@.len(),
            forall|j: int| 0 <= j < i ==> (#[trigger] faces@[j]).valid_for(vertex_count as int),
        decreases faces@.len() - i,
    {
        if faces[i].vertex_indices(vertex_count).is_none() {
            return Err(MeshError::FaceIndexOutOfRange { face: i });
        }
        i += 1;
    }
    Ok(())
}

/// The vertex numbers of the twelve faces of the cube, two for each side:
/// front, right, back, left, top, bottom.
pub open spec fn cube_corners() -> Seq<(int, int, int)> {
    seq![
        (1, 2, 3),
        (1, 3, 4),
        (4, 3, 5),
        (4, 5, 6),
        (6, 5, 7),
        (6, 7, 8),
        (8, 7, 2),
        (8, 2, 1),
        (2, 7, 5),
        (2, 5, 3),
        (6, 8, 1),
        (6, 1, 4),
    ]
}

/// A white face of the cube. The first face of a side takes the texture's
/// corners `(0, 0)`, `(0, 1)`, `(1, 1)`, the second `(0, 0)`, `(1, 1)`,
/// `(1, 0)`.
fn cube_face(a: usize, b: usize, c: usize, first_of_side: bool) -> (face: Face)
    ensures
        face.a == a,
        face.b == b,
        face.c == c,
        face.color == (Color { r: 255, g: 255, b: 255, a: 255 }),
        face.a_uv == (Tex2 { u: 0, v: 0 }),
        face.b_uv == if first_of_side {
            Tex2 { u: 0, v: FIXED_ONE }
        } else {
            Tex2 { u: FIXED_ONE, v: FIXED_ONE }
        },
        face.c_uv == if first_of_side {
            Tex2 { u: FIXED_ONE, v: FIXED_ONE }
        } else {
            Tex2 { u: FIXED_ONE, v: 0 }
        },
{
    let b_uv = if first_of_side {
        Tex2 { u: 0, v: FIXED_ONE }
    } else {
        Tex2 { u: FIXED_ONE, v: FIXED_ONE }
    };
    let c_uv = if first_of_side {
        Tex2 { u: FIXED_ONE, v: FIXED_ONE }
    } else {
        Tex2 { u: FIXED_ONE, v: 0 }
    };
    Face { a, b, c, a_uv: Tex2 { u: 0, v: 0 }, b_uv, c_uv, color: Color::rgba(255, 255, 255, 255) }
}

/// The twelve faces of a cube of eight vertices, all white, each side
/// covered by the whole texture.
pub fn get_cube_faces() -> (faces: Vec<Face>)
    ensures
        faces@.len() == 12,
        forall|i: int|
            0 <= i < 12 ==> {
                let face = #[trigger] faces@[i];
                &&& (face.a as int, face.b as int, face.c as int) == cube_corners()[i]
                &&& face.valid_for(8)
                &&& face.color == (Color { r: 255, g: 255, b: 255, a: 255 })
                &&& face.a_uv == (Tex2 { u: 0, v: 0 })
                &&& face.b_uv == if i % 2 == 0 {
                    Tex2 { u: 0, v: FIXED_ONE }
                } else {
                    Tex2 { u: FIXED_ONE, v: FIXED_ONE }
                }
                &&& face.c_uv == if i % 2 == 0 {
                    Tex2 { u: FIXED_ONE, v: FIXED_ONE }
                } else {
                    Tex2 { u: FIXED_ONE, v: 0 }
                }
            },
{
    let mut faces: Vec<Face> = Vec::new();
    faces.push(cube_face(1, 2, 3, true));
    faces.push(cube_face(1, 3, 4, false));
    faces.push(cube_face(4, 3, 5, true));
    faces.push(cube_face(4, 5, 6, false));
    faces.push(cube_face(6, 5, 7, true));
    faces.push(cube_face(6, 7, 8, false));
    faces.push(cube_face(8, 7, 2, true));
    faces.push(cube_face(8, 2, 1, false));
    faces.push(cube_face(2, 7, 5, true));
    faces.push(cube_face(2, 5, 3, false));
    faces.push(cube_face(6, 8, 1, true));
    faces.push(cube_face(6, 1, 4, false));
    faces
}

} // verus!
