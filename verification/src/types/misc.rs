use vstd::prelude::*;

verus! {

/// The six faces of a cube, in the order in which per-face tables are laid out.
#[derive(Debug, Clone, Copy, PartialEq, Eq, Structural)]
pub enum CubeFace {
    Top,
    Front,
    Left,
    Right,
    Back,
    Bottom,
}

impl CubeFace {
    /// Position of the face in per-face tables: Top 0, Front 1, Left 2, Right 3, Back 4, Bottom 5.
    pub open spec fn spec_index(self) -> int {
        match self {
            CubeFace::Top => 0,
            CubeFace::Front => 1,
            CubeFace::Left => 2,
            CubeFace::Right => 3,
            CubeFace::Back => 4,
            CubeFace::Bottom => 5,
        }
    }

    /// The face that stands at position `i` of a per-face table.
    pub open spec fn spec_from_index(i: int) -> CubeFace {
        if i == 0 {
            CubeFace::Top
        } else if i == 1 {
            CubeFace::Front
        } else if i == 2 {
            CubeFace::Left
        } else if i == 3 {
            CubeFace::Right
        } else if i == 4 {
            CubeFace::Back
        } else {
            CubeFace::Bottom
        }
    }

    /// Step to the neighbouring block that this face looks at, as `(dx, dy, dz)`.
    pub open spec fn spec_offset(self) -> (int, int, int) {
        match self {
            CubeFace::Top => (0, 1, 0),
            CubeFace::Front => (0, 0, -1),
            CubeFace::Left => (-1, 0, 0),
            CubeFace::Right => (1, 0, 0),
            CubeFace::Back => (0, 0, 1),
            CubeFace::Bottom => (0, -1, 0),
        }
    }

    #[verifier::when_used_as_spec(spec_index_usize)]
    pub fn index(self) -> (i: usize)
        ensures
            i == self.spec_index(),
            i < 6,
    {
        match self {
            CubeFace::Top => 0,
            CubeFace::Front => 1,
            CubeFace::Left => 2,
            CubeFace::Right => 3,
            CubeFace::Back => 4,
            CubeFace::Bottom => 5,
        }
    }

    pub open spec fn spec_index_usize(self) -> usize {
        self.spec_index() as usize
    }

    /// The face at position `i`, if `i` is below six.
    pub fn from_index(i: usize) -> (face: Option<CubeFace>)
        ensures
            i < 6 ==> face == Some(Self::spec_from_index(i as int)),
            i >= 6 ==> face is None,
    {
        if i == 0 {
            Some(CubeFace::Top)
        } else if i == 1 {
            Some(CubeFace::Front)
        } else if i == 2 {
            Some(CubeFace::Left)
        } else if i == 3 {
            Some(CubeFace::Right)
        } else if i == 4 {
            Some(CubeFace::Back)
        } else if i == 5 {
            Some(CubeFace::Bottom)
        } else {
            None
        }
    }

    /// Step to the neighbouring block that this face looks at.
    pub fn offset(self) -> (d: (i8, i8, i8))
        ensures
            (d.0 as int, d.1 as int, d.2 as int) == self.spec_offset(),
    {
        match self {
            CubeFace::Top => (0, 1, 0),
            CubeFace::Front => (0, 0, -1),
            CubeFace::Left => (-1, 0, 0),
            CubeFace::Right => (1, 0, 0),
            CubeFace::Back => (0, 0, 1),
            CubeFace::Bottom => (0, -1, 0),
        }
    }
}

/// Every face has its own position, and the positions are 0 to 5.
pub proof fn lemma_face_index_round_trip(face: CubeFace)
    ensures
        0 <= face.spec_index() < 6,
        CubeFace::spec_from_index(face.spec_index()) == face,
{
}

} // verus!
