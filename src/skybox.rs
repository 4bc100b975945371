use vstd::prelude::*;
use crate::texture::Texture;

verus! {

/// One side of the sky cube.
#[derive(Clone, Copy, Debug, PartialEq, Eq, Structural)]
pub enum CubeFace {
    Right,
    Left,
    Top,
    Bottom,
    Front,
    Back,
}

/// The six images of a sky cube. The sky is sampled from it only when all
/// six are present; otherwise the gradient is used.
pub struct Cubemap {
    pub right: Texture,
    pub left: Texture,
    pub top: Texture,
    pub bottom: Texture,
    pub front: Texture,
    pub back: Texture,
}

impl Cubemap {
    pub open spec fn wf(&self) -> bool {
        &&& self.right.wf()
        &&& self.left.wf()
        &&& self.top.wf()
        &&& self.bottom.wf()
        &&& self.front.wf()
        &&& self.back.wf()
    }

    pub open spec fn spec_face(&self, f: CubeFace) -> Texture {
        match f {
            CubeFace::Right => self.right,
            CubeFace::Left => self.left,
            CubeFace::Top => self.top,
            CubeFace::Bottom => self.bottom,
            CubeFace::Front => self.front,
            CubeFace::Back => self.back,
        }
    }

    /// A cubemap from the six faces that loaded; `None` as soon as one is
    /// missing.
    pub fn from_faces(
        right: Option<Texture>,
        left: Option<Texture>,
        top: Option<Texture>,
        bottom: Option<Texture>,
        front: Option<Texture>,
        back: Option<Texture>,
    ) -> (r: Option<Cubemap>)
        requires
            right matches Some(t) ==> t.wf(),
            left matches Some(t) ==> t.wf(),
            top matches Some(t) ==> t.wf(),
            bottom matches Some(t) ==> t.wf(),
            front matches Some(t) ==> t.wf(),
            back matches Some(t) ==> t.wf(),
        ensures
            r is Some <==> (right is Some && left is Some && top is Some && bottom is Some
                && front is Some && back is Some),
            r matches Some(c) ==> {
                &&& c.wf()
                &&& c.right == right->0
                &&& c.left == left->0
                &&& c.top == top->0
                &&& c.bottom == bottom->0
                &&& c.front == front->0
                &&& c.back == back->0
            },
    {
        match (right, left, top, bottom, front, back) {
            (Some(right), Some(left), Some(top), Some(bottom), Some(front), Some(back)) => {
                Some(Cubemap { right, left, top, bottom, front, back })
            },
            _ => None,
        }
    }

    /// The image of face `f`.
    pub fn face(&self, f: CubeFace) -> (t: &Texture)
        ensures
            *t == self.spec_face(f),
            self.wf() ==> t.wf(),
    {
        match f {
            CubeFace::Right => &self.right,
            CubeFace::Left => &self.left,
            CubeFace::Top => &self.top,
            CubeFace::Bottom => &self.bottom,
            CubeFace::Front => &self.front,
            CubeFace::Back => &self.back,
        }
    }
}

} // verus!
