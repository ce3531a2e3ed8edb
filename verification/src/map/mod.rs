pub mod matrix_physics;
pub mod matrix_simple;
pub mod premade;

use vstd::prelude::*;
use crate::geometry::Size2D;
use crate::entity::entities::Entities;
use matrix_simple::{MatrixSimple, MatrixSimpleCellContent, cells_to_cover};

verus! {

/// World units per map unit.
pub const RATIO_POSITION: i32 = 10_000;

/// What a map is made from: its size in map units.
#[derive(Clone, Copy, Debug)]
pub struct MapInfo {
    pub size: Size2D,
}

/// The map: its size and the grids that index the entities by position.
pub struct GameMap {
    pub matrix_simple: MatrixSimple,
    pub size: Size2D,
    pub size_field: i32,
}

/// A map size that the world coordinates can hold.
pub open spec fn map_size_ok(size: Size2D) -> bool {
    &&& 1 <= size.width
    &&& 1 <= size.height
    &&& size.width * RATIO_POSITION <= i32::MAX
    &&& size.height * RATIO_POSITION <= i32::MAX
}

impl GameMap {
    /// The map's size is sound, and its simple grid has one cell per map
    /// unit.
    pub open spec fn wf(&self) -> bool {
        &&& map_size_ok(self.size)
        &&& self.size_field == RATIO_POSITION
        &&& self.matrix_simple.wf()
        &&& self.matrix_simple.size_field == RATIO_POSITION
        &&& self.matrix_simple.size == self.size
    }

    /// The largest coordinates on the map.
    pub open spec fn max_spec(&self) -> Size2D {
        Size2D {
            width: (self.size.width * self.size_field - 1) as i32,
            height: (self.size.height * self.size_field - 1) as i32,
        }
    }

    pub fn new(info: MapInfo) -> (map: GameMap)
        requires
            map_size_ok(info.size),
        ensures
            map.wf(),
            map.size == info.size,
            forall|x: int, y: int| 0 <= x < map.size.width && 0 <= y < map.size.height
                ==> #[trigger] map.matrix_simple.cell(x, y).dom().is_empty(),
    {
        let total = Size2D { width: info.size.width * RATIO_POSITION, height: info.size.height * RATIO_POSITION };
        proof {
            assert(cells_to_cover(total.width as int, RATIO_POSITION as int) == info.size.width) by (nonlinear_arith)
                requires
                    total.width == info.size.width * 10000,
                    info.size.width >= 1,
            ;
            assert(cells_to_cover(total.height as int, RATIO_POSITION as int) == info.size.height) by (nonlinear_arith)
                requires
                    total.height == info.size.height * 10000,
                    info.size.height >= 1,
            ;
        }
        let matrix_simple = MatrixSimple::new(total, RATIO_POSITION);
        GameMap { matrix_simple, size: info.size, size_field: RATIO_POSITION }
    }

    /// The largest coordinates on the map: one unit short of its extent.
    pub fn max(&self) -> (m: Size2D)
        requires
            self.wf(),
        ensures
            m == self.max_spec(),
            1 <= m.width,
            1 <= m.height,
    {
        proof {
            assert(self.size.width * self.size_field >= 2) by (nonlinear_arith)
                requires
                    self.size.width >= 1,
                    self.size_field == 10000,
            ;
            assert(self.size.height * self.size_field >= 2) by (nonlinear_arith)
                requires
                    self.size.height >= 1,
                    self.size_field == 10000,
            ;
        }
        Size2D::new(self.size.width * self.size_field - 1, self.size.height * self.size_field - 1)
    }

    /// Records the entity in the grids, under its current position.
    pub fn add_entity(&mut self, entities: &mut Entities, entity: usize)
        requires
            old(self).wf(),
            old(entities).sizes_ok(),
            entity < old(entities).core@.len(),
            old(self).matrix_simple.covers(old(entities).position@[entity as int]),
        ensures
            final(self).wf(),
            final(self).size == old(self).size,
            final(entities).same_but_grid_index(old(entities)),
            ({
                let p = old(entities).position@[entity as int];
                let (x, y) = old(self).matrix_simple.field_of(p);
                let ix = final(entities).index_matrix_simple@[entity as int];
                &&& ix.x == x
                &&& ix.y == y
                &&& !old(self).matrix_simple.cell(x, y).contains_key(ix.z)
                &&& final(entities).index_matrix_simple@ == old(entities).index_matrix_simple@.update(entity as int, ix)
                &&& final(self).matrix_simple.changes_only(
                    &old(self).matrix_simple,
                    x,
                    y,
                    old(self).matrix_simple.cell(x, y).insert(ix.z, MatrixSimpleCellContent { entity, position: p }),
                )
            }),
    {
        self.matrix_simple.add_entity(entities, entity);
    }

    /// Removes the entity's records from the grids.
    pub fn delete_entity(&mut self, entities: &Entities, entity: usize)
        requires
            old(self).wf(),
            entities.sizes_ok(),
            entity < entities.core@.len(),
            old(self).matrix_simple.consistent(entities.index_matrix_simple@),
        ensures
            final(self).wf(),
            final(self).size == old(self).size,
            ({
                let ix = entities.index_matrix_simple@[entity as int];
                final(self).matrix_simple.changes_only(
                    &old(self).matrix_simple,
                    ix.x as int,
                    ix.y as int,
                    old(self).matrix_simple.cell(ix.x as int, ix.y as int).remove(ix.z),
                )
            }),
    {
        self.matrix_simple.delete_entity(entities, entity);
    }

    /// Tells the grids that the entity recorded under its grid index now
    /// lives at index `entity`.
    pub fn update_entity_index(&mut self, entities: &Entities, entity: usize)
        requires
            old(self).wf(),
            entities.sizes_ok(),
            entity < entities.core@.len(),
            old(self).matrix_simple.in_grid(entities.index_matrix_simple@[entity as int].x as int, entities.index_matrix_simple@[entity as int].y as int),
            old(self).matrix_simple.cell(entities.index_matrix_simple@[entity as int].x as int, entities.index_matrix_simple@[entity as int].y as int)
                .contains_key(entities.index_matrix_simple@[entity as int].z),
        ensures
            final(self).wf(),
            final(self).size == old(self).size,
            ({
                let ix = entities.index_matrix_simple@[entity as int];
                let c = old(self).matrix_simple.cell(ix.x as int, ix.y as int);
                final(self).matrix_simple.changes_only(
                    &old(self).matrix_simple,
                    ix.x as int,
                    ix.y as int,
                    c.insert(ix.z, MatrixSimpleCellContent { entity, ..c[ix.z] }),
                )
            }),
    {
        self.matrix_simple.update_entity_index(entities, entity);
        proof {
            let ix = entities.index_matrix_simple@[entity as int];
            assert forall|x: int, y: int| old(self).matrix_simple.in_grid(x, y) implies #[trigger] self.matrix_simple.cell(x, y) == if x == ix.x && y == ix.y {
                old(self).matrix_simple.cell(x, y).insert(ix.z, MatrixSimpleCellContent { entity, ..old(self).matrix_simple.cell(x, y)[ix.z] })
            } else {
                old(self).matrix_simple.cell(x, y)
            } by {}
        }
    }

    /// Moves the entity's record in the grids to the cell under its
    /// current position.
    pub fn update_entity(&mut self, entities: &mut Entities, entity: usize)
        requires
            old(self).wf(),
            old(entities).sizes_ok(),
            entity < old(entities).core@.len(),
            old(self).matrix_simple.consistent(old(entities).index_matrix_simple@),
            old(self).matrix_simple.covers(old(entities).position@[entity as int]),
        ensures
            final(self).wf(),
            final(self).size == old(self).size,
            final(entities).same_but_grid_index(old(entities)),
            final(self).matrix_simple.consistent(final(entities).index_matrix_simple@),
            ({
                let p = old(entities).position@[entity as int];
                let ix = final(entities).index_matrix_simple@[entity as int];
                &&& (ix.x as int, ix.y as int) == old(self).matrix_simple.field_of(p)
                &&& final(entities).index_matrix_simple@ == old(entities).index_matrix_simple@.update(entity as int, ix)
                &&& final(self).matrix_simple.cell(ix.x as int, ix.y as int)[ix.z] == (MatrixSimpleCellContent { entity, position: p })
            }),
    {
        self.matrix_simple.update_entity(entities, entity);
    }

    /// The same as `delete_entity`; the caller holds the only access to the
    /// cell.
    pub fn delete_entity_multithread(&mut self, entities: &Entities, entity: usize)
        requires
            old(self).wf(),
            entities.sizes_ok(),
            entity < entities.core@.len(),
            old(self).matrix_simple.consistent(entities.index_matrix_simple@),
        ensures
            final(self).wf(),
            final(self).size == old(self).size,
            ({
                let ix = entities.index_matrix_simple@[entity as int];
                final(self).matrix_simple.changes_only(
                    &old(self).matrix_simple,
                    ix.x as int,
                    ix.y as int,
                    old(self).matrix_simple.cell(ix.x as int, ix.y as int).remove(ix.z),
                )
            }),
    {
        self.delete_entity(entities, entity);
    }

    /// The same as `add_entity`; the caller holds the only access to the
    /// cell.
    pub fn add_entity_multithread(&mut self, entities: &mut Entities, entity: usize)
        requires
            old(self).wf(),
            old(entities).sizes_ok(),
            entity < old(entities).core@.len(),
            old(self).matrix_simple.covers(old(entities).position@[entity as int]),
        ensures
            final(self).wf(),
            final(self).size == old(self).size,
            final(entities).same_but_grid_index(old(entities)),
            ({
                let p = old(entities).position@[entity as int];
                let (x, y) = old(self).matrix_simple.field_of(p);
                let ix = final(entities).index_matrix_simple@[entity as int];
                &&& ix.x == x
                &&& ix.y == y
                &&& !old(self).matrix_simple.cell(x, y).contains_key(ix.z)
                &&& final(entities).index_matrix_simple@ == old(entities).index_matrix_simple@.update(entity as int, ix)
                &&& final(self).matrix_simple.changes_only(
                    &old(self).matrix_simple,
                    x,
                    y,
                    old(self).matrix_simple.cell(x, y).insert(ix.z, MatrixSimpleCellContent { entity, position: p }),
                )
            }),
    {
        self.add_entity(entities, entity);
    }
}

} // verus!
