use vstd::prelude::*;
use crate::types::misc::CubeFace;

verus! {

/// A corner of the rectangle that a texture takes in the atlas.
#[derive(Debug, Clone, Copy, PartialEq, Eq, Structural)]
pub struct UvCorner {
    /// Place of the texture in the atlas.
    pub texture: usize,
    /// Whether the corner lies at the rectangle's largest `u`, else at its smallest.
    pub u_max: bool,
    /// Whether the corner lies at the rectangle's largest `v`, else at its smallest.
    pub v_max: bool,
}

/// The four corners of a face, as steps from the block's origin, in the order in which
/// the face's vertices are laid out.
pub open spec fn face_corner(face: CubeFace, k: int) -> (int, int, int) {
    match face {
        CubeFace::Top => if k == 0 {
            (0, 1, 0)
        } else if k == 1 {
            (0, 1, 1)
        } else if k == 2 {
            (1, 1, 0)
        } else {
            (1, 1, 1)
        },
        CubeFace::Front => if k == 0 {
            (0, 0, 0)
        } else if k == 1 {
            (0, 1, 0)
        } else if k == 2 {
            (1, 0, 0)
        } else {
            (1, 1, 0)
        },
        CubeFace::Left => if k == 0 {
            (0, 0, 1)
        } else if k == 1 {
            (0, 1, 1)
        } else if k == 2 {
            (0, 0, 0)
        } else {
            (0, 1, 0)
        },
        CubeFace::Right => if k == 0 {
            (1, 0, 0)
        } else if k == 1 {
            (1, 1, 0)
        } else if k == 2 {
            (1, 0, 1)
        } else {
            (1, 1, 1)
        },
        CubeFace::Back => if k == 0 {
            (1, 0, 1)
        } else if k == 1 {
            (1, 1, 1)
        } else if k == 2 {
            (0, 0, 1)
        } else {
            (0, 1, 1)
        },
        CubeFace::Bottom => if k == 0 {
            (0, 0, 1)
        } else if k == 1 {
            (0, 0, 0)
        } else if k == 2 {
            (1, 0, 1)
        } else {
            (1, 0, 0)
        },
    }
}

/// Corner `k` of a face, as steps from the block's origin.
pub fn cube_face_vertex(face: CubeFace, k: usize) -> (corner: (u16, u16, u16))
    requires
        k < 4,
    ensures
        (corner.0 as int, corner.1 as int, corner.2 as int) == face_corner(face, k as int),
        corner.0 <= 1 && corner.1 <= 1 && corner.2 <= 1,
{
    match face {
        CubeFace::Top => if k == 0 {
            (0, 1, 0)
        } else if k == 1 {
            (0, 1, 1)
        } else if k == 2 {
            (1, 1, 0)
        } else {
            (1, 1, 1)
        },
        CubeFace::Front => if k == 0 {
            (0, 0, 0)
        } else if k == 1 {
            (0, 1, 0)
        } else if k == 2 {
            (1, 0, 0)
        } else {
            (1, 1, 0)
        },
        CubeFace::Left => if k == 0 {
            (0, 0, 1)
        } else if k == 1 {
            (0, 1, 1)
        } else if k == 2 {
            (0, 0, 0)
        } else {
            (0, 1, 0)
        },
        CubeFace::Right => if k == 0 {
            (1, 0, 0)
        } else if k == 1 {
            (1, 1, 0)
        } else if k == 2 {
            (1, 0, 1)
        } else {
            (1, 1, 1)
        },
        CubeFace::Back => if k == 0 {
            (1, 0, 1)
        } else if k == 1 {
            (1, 1, 1)
        } else if k == 2 {
            (0, 0, 1)
        } else {
            (0, 1, 1)
        },
        CubeFace::Bottom => if k == 0 {
            (0, 0, 1)
        } else if k == 1 {
            (0, 0, 0)
        } else if k == 2 {
            (1, 0, 1)
        } else {
            (1, 0, 0)
        },
    }
}

/// The direction a face looks in: the step to the neighbouring block.
pub fn cube_face_normal(face: CubeFace) -> (normal: (i8, i8, i8))
    ensures
        (normal.0 as int, normal.1 as int, normal.2 as int) == face.spec_offset(),
{
    face.offset()
}

/// The two triangles of a face, as places among the face's four vertices.
pub open spec fn cube_indices() -> Seq<int> {
    seq![0, 1, 2, 2, 1, 3]
}

/// A face of a block, as it is handed to the mesh builder.
pub struct FaceView {
    pub face: CubeFace,
    /// The block's place in the chunk.
    pub coord: (u8, u8, u8),
    /// The texture corner of each of the four vertices.
    pub uvs: Seq<UvCorner>,
}

/// The positions of the four vertices of a face of the block at `coord`: the block takes
/// the unit cube from `coord` to `coord + 1`.
pub open spec fn face_positions(face: CubeFace, coord: (u8, u8, u8)) -> Seq<(u16, u16, u16)> {
    Seq::new(
        4,
        |k: int|
            (
                (coord.0 + face_corner(face, k).0) as u16,
                (coord.1 + face_corner(face, k).1) as u16,
                (coord.2 + face_corner(face, k).2) as u16,
            ),
    )
}

/// The normals of the four vertices of a face: four times the direction it looks in.
pub open spec fn face_normals(face: CubeFace) -> Seq<(i8, i8, i8)> {
    Seq::new(
        4,
        |k: int|
            (
                face.spec_offset().0 as i8,
                face.spec_offset().1 as i8,
                face.spec_offset().2 as i8,
            ),
    )
}

/// The triangles of a face whose first vertex is the vertex number `base` of the mesh.
pub open spec fn face_indices(base: int) -> Seq<u32> {
    Seq::new(6, |k: int| (base + cube_indices()[k]) as u32)
}

/// A mesh as plain values: per vertex a position, a normal and a texture corner, and the
/// triangles as places among the vertices, three to a triangle.
pub struct MeshView {
    pub positions: Seq<(u16, u16, u16)>,
    pub normals: Seq<(i8, i8, i8)>,
    pub uvs: Seq<UvCorner>,
    pub indices: Seq<u32>,
}

impl MeshView {
    /// The mesh without vertices.
    pub open spec fn empty() -> MeshView {
        MeshView {
            positions: Seq::empty(),
            normals: Seq::empty(),
            uvs: Seq::empty(),
            indices: Seq::empty(),
        }
    }

    /// The mesh with one more face: four vertices and two triangles after those that are
    /// there.
    pub open spec fn with_face(self, face: FaceView) -> MeshView {
        MeshView {
            positions: self.positions + face_positions(face.face, face.coord),
            normals: self.normals + face_normals(face.face),
            uvs: self.uvs + face.uvs,
            indices: self.indices + face_indices(self.positions.len() as int),
        }
    }
}

/// The mesh that holds the faces `faces`, in their order.
pub open spec fn mesh_of_faces(faces: Seq<FaceView>) -> MeshView
    decreases faces.len(),
{
    if faces.len() == 0 {
        MeshView::empty()
    } else {
        mesh_of_faces(faces.drop_last()).with_face(faces.last())
    }
}

/// A mesh of `n` faces, each with four texture corners, has `4 n` vertices and `6 n` places
/// in its triangles, and every triangle names vertices of the mesh.
pub proof fn lemma_mesh_of_faces(faces: Seq<FaceView>)
    requires
        forall|i: int| 0 <= i < faces.len() ==> (#[trigger] faces[i]).uvs.len() == 4,
        4 * faces.len() <= u32::MAX,
    ensures
        mesh_of_faces(faces).positions.len() == 4 * faces.len(),
        mesh_of_faces(faces).normals.len() == 4 * faces.len(),
        mesh_of_faces(faces).uvs.len() == 4 * faces.len(),
        mesh_of_faces(faces).indices.len() == 6 * faces.len(),
        forall|k: int|
            0 <= k < 6 * faces.len() ==> (#[trigger] mesh_of_faces(faces).indices[k]) < 4
                * faces.len(),
    decreases faces.len(),
{
    if faces.len() > 0 {
        let earlier = faces.drop_last();
        lemma_mesh_of_faces(earlier);
        let before = mesh_of_faces(earlier);
        let mesh = mesh_of_faces(faces);
        assert forall|k: int| 0 <= k < 6 * faces.len() implies (#[trigger] mesh.indices[k]) < 4
            * faces.len() by {
            if !(k >= 6 * earlier.len()) {
                assert(mesh.indices[k] == before.indices[k]);
            }
        }
    }
}

/// A mesh, ready to be handed to the renderer.
pub struct MeshData {
    pub positions: Vec<(u16, u16, u16)>,
    pub normals: Vec<(i8, i8, i8)>,
    pub uvs: Vec<UvCorner>,
    pub indices: Vec<u32>,
}

impl View for MeshData {
    type V = MeshView;

    open spec fn view(&self) -> MeshView {
        MeshView {
            positions: self.positions@,
            normals: self.normals@,
            uvs: self.uvs@,
            indices: self.indices@,
        }
    }
}

/// Collects the faces of a mesh.
pub struct MeshBuilder {
    vertices: Vec<(u16, u16, u16)>,
    normals: Vec<(i8, i8, i8)>,
    uvs: Vec<UvCorner>,
    indices: Vec<u32>,
    faces: u32,
}

impl View for MeshBuilder {
    type V = MeshView;

    closed spec fn view(&self) -> MeshView {
        MeshView {
            positions: self.vertices@,
            normals: self.normals@,
            uvs: self.uvs@,
            indices: self.indices@,
        }
    }
}

impl Default for MeshBuilder {
    fn default() -> (builder: Self)
        ensures
            builder.wf(),
            builder@ == MeshView::empty(),
    {
        MeshBuilder {
            vertices: Vec::new(),
            normals: Vec::new(),
            uvs: Vec::new(),
            indices: Vec::new(),
            faces: 0,
        }
    }
}

impl MeshBuilder {
    /// The builder has counted the vertices that it holds.
    pub closed spec fn wf(&self) -> bool {
        self.faces == self.vertices@.len()
    }

    /// Adds a face of the block at `coord`: four vertices with the normal of the face
    /// and the texture corners `uvs`, and two triangles.
    pub fn add_face(&mut self, face: CubeFace, coord: [u8; 3], uvs: [UvCorner; 4])
        requires
            old(self).wf(),
            old(self)@.positions.len() + 4 <= u32::MAX,
        ensures
            final(self).wf(),
            final(self)@ == old(self)@.with_face(
                FaceView { face, coord: (coord@[0], coord@[1], coord@[2]), uvs: uvs@ },
            ),
    {
        let ghost before = self@;
        let ghost added = FaceView { face, coord: (coord@[0], coord@[1], coord@[2]), uvs: uvs@ };
        let normal = cube_face_normal(face);
        let mut k: usize = 0;
        while k < 4
            invariant
                k <= 4,
                added.coord == (coord@[0], coord@[1], coord@[2]),
                self.faces == before.positions.len(),
                before.positions.len() + 4 <= u32::MAX,
                normal.0 == face.spec_offset().0,
                normal.1 == face.spec_offset().1,
                normal.2 == face.spec_offset().2,
                self.indices@ == before.indices,
                self.vertices@ == before.positions + face_positions(face, added.coord).take(
                    k as int,
                ),
                self.normals@ == before.normals + face_normals(face).take(k as int),
                self.uvs@ == before.uvs + uvs@.take(k as int),
            decreases 4 - k,
        {
            let corner = cube_face_vertex(face, k);
            self.vertices.push(
                (coord[0] as u16 + corner.0, coord[1] as u16 + corner.1, coord[2] as u16 + corner.2),
            );
            self.normals.push(normal);
            self.uvs.push(uvs[k]);
            assert(self.vertices@ =~= before.positions + face_positions(face, added.coord).take(
                k + 1,
            ));
            k = k + 1;
        }
        assert(face_positions(face, added.coord).take(4) =~= face_positions(face, added.coord));
        assert(face_normals(face).take(4) =~= face_normals(face));
        assert(uvs@.take(4) =~= uvs@);
        let base = self.faces;
        self.indices.push(base);
        self.indices.push(base + 1);
        self.indices.push(base + 2);
        self.indices.push(base + 2);
        self.indices.push(base + 1);
        self.indices.push(base + 3);
        assert(self.indices@ =~= before.indices + face_indices(base as int));
        self.faces = base + 4;
    }

    /// Adds the face if `condition` holds, and does nothing otherwise.
    pub fn add_face_if(
        &mut self,
        condition: bool,
        face: CubeFace,
        coord: [u8; 3],
        uvs: [UvCorner; 4],
    )
        requires
            old(self).wf(),
            old(self)@.positions.len() + 4 <= u32::MAX,
        ensures
            final(self).wf(),
            final(self)@ == (if condition {
                old(self)@.with_face(
                    FaceView { face, coord: (coord@[0], coord@[1], coord@[2]), uvs: uvs@ },
                )
            } else {
                old(self)@
            }),
    {
        if condition {
            self.add_face(face, coord, uvs)
        }
    }

    /// How many vertices the builder holds.
    pub fn vertex_count(&self) -> (count: u32)
        requires
            self.wf(),
        ensures
            count == self@.positions.len(),
    {
        self.faces
    }

    /// The mesh of the faces that were added.
    pub fn build(self) -> (mesh: MeshData)
        ensures
            mesh@ == self@,
    {
        MeshData {
            positions: self.vertices,
            normals: self.normals,
            uvs: self.uvs,
            indices: self.indices,
        }
    }
}

} // verus!
