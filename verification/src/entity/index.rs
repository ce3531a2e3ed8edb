use vstd::prelude::*;

verus! {

/// Where an entity stands in the simple grid: cell `(x, y)`, slot `z`.
#[derive(Clone, Copy, PartialEq, Eq, Structural, Debug)]
pub struct MatrixIndex {
    pub x: usize,
    pub y: usize,
    pub z: usize,
}

impl MatrixIndex {
    pub fn xyz(&self) -> (t: (usize, usize, usize))
        ensures
            t == (self.x, self.y, self.z),
    {
        (self.x, self.y, self.z)
    }
}

/// Where an entity larger than a cell of a coarser physics grid is
/// recorded: the grid's index and the cells, by column and row.
#[derive(Clone, Debug)]
pub struct IndexMatrixPhysicsBigger {
    pub index: i32,
    pub locations: Vec<(usize, usize)>,
}

/// The index of an entity in the entity columns.
#[derive(Clone, Copy, PartialEq, Eq, Structural, Debug)]
pub struct EntityIndexMain(pub usize);

impl EntityIndexMain {
    /// The index it holds.
    pub fn get(&self) -> (i: usize)
        ensures
            i == self.0,
    {
        self.0
    }
}

} // verus!
