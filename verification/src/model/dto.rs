//! Plain records that clients exchange: a resource count, and the summary of
//! the furnace-line world.
use vstd::prelude::*;

verus! {

#[derive(Debug, PartialEq)]
pub struct Resource {
    pub id: String,
    pub quantity: u32,
}

impl Clone for Resource {
    fn clone(&self) -> (c: Self)
        ensures
            c == *self,
    {
        Resource { id: self.id.clone(), quantity: self.quantity }
    }
}

/// The stocks of the furnace line: coal, ore and produced ingots.
#[derive(Debug, Clone, Copy, PartialEq, Eq, Structural, Default)]
pub struct WorldModel {
    pub coal_storage: u32,
    pub ore_storage: u32,
    pub output_storage: u32,
}

impl WorldModel {
    /// The demo's starting stocks: 32 coal, 128 ore, no ingots.
    pub fn furnace_line_demo() -> (w: Self)
        ensures
            w == (WorldModel { coal_storage: 32, ore_storage: 128, output_storage: 0 }),
    {
        WorldModel { coal_storage: 32, ore_storage: 128, output_storage: 0 }
    }
}

} // verus!
