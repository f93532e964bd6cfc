//! Positions across spaces.
use super::id::SpaceId;
use vstd::prelude::*;

verus! {

/// A block position in space `w`.
#[derive(Debug, PartialEq, Eq, Hash)]
pub struct SpacePos {
    pub w: SpaceId,
    pub x: i32,
    pub y: i32,
    pub z: i32,
}

impl Clone for SpacePos {
    fn clone(&self) -> (c: Self)
        ensures
            c == *self,
    {
        SpacePos { w: self.w.clone(), x: self.x, y: self.y, z: self.z }
    }
}

impl SpacePos {
    pub fn new(w: SpaceId, x: i32, y: i32, z: i32) -> (p: Self)
        ensures
            p == (SpacePos { w, x, y, z }),
    {
        SpacePos { w, x, y, z }
    }
}

} // verus!
