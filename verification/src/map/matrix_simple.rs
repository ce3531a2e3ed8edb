use vstd::prelude::*;
use slab::Slab;
use crate::geometry::{Point2D, Rect, Size2D};
use crate::entity::entities::Entities;
use crate::entity::index::MatrixIndex;

verus! {

/// What a cell of the simple grid records of an entity: its index and its
/// position when it was recorded.
#[derive(Clone, Copy, PartialEq, Eq, Structural, Debug)]
pub struct MatrixSimpleCellContent {
    pub entity: usize,
    pub position: Point2D,
}

/// The values that a slab of the simple grid holds, by key.
pub uninterp spec fn simple_cell_entries(slab: Slab<MatrixSimpleCellContent>) -> Map<usize, MatrixSimpleCellContent>;

/// Each value is smaller than the next.
pub open spec fn increasing(s: Seq<usize>) -> bool {
    forall|i: int, j: int| 0 <= i < j < s.len() ==> s[i] < s[j]
}

/// The occupied slots of a cell, in increasing order.
pub open spec fn slots_in_order(c: Map<usize, MatrixSimpleCellContent>) -> Seq<usize> {
    choose|s: Seq<usize>| increasing(s) && forall|k: usize| c.contains_key(k) <==> s.contains(k)
}

/// Two increasing sequences of the same values are the same sequence.
pub proof fn lemma_increasing_unique(a: Seq<usize>, b: Seq<usize>)
    requires
        increasing(a),
        increasing(b),
        forall|k: usize| a.contains(k) <==> b.contains(k),
    ensures
        a == b,
    decreases a.len(),
{
    if a.len() == 0 {
        if b.len() > 0 {
            assert(b.contains(b[0]));
        }
        assert(a =~= b);
    } else {
        assert(a.contains(a[0]));
        assert(b.len() > 0);
        assert(b.contains(b[0]));
        let j = choose|j: int| 0 <= j < b.len() && b[j] == a[0];
        let i = choose|i: int| 0 <= i < a.len() && a[i] == b[0];
        if j > 0 {
            assert(b[0] < b[j]);
        }
        if i > 0 {
            assert(a[0] < a[i]);
        }
        assert(a[0] == b[0]);
        let a1 = a.drop_first();
        let b1 = b.drop_first();
        assert forall|k: usize| a1.contains(k) <==> b1.contains(k) by {
            if a1.contains(k) {
                let w = choose|w: int| 0 <= w < a1.len() && a1[w] == k;
                assert(a[w + 1] == k && a[0] < a[w + 1]);
                assert(a.contains(k));
                let v = choose|v: int| 0 <= v < b.len() && b[v] == k;
                assert(v != 0);
                assert(b1[v - 1] == k);
            }
            if b1.contains(k) {
                let w = choose|w: int| 0 <= w < b1.len() && b1[w] == k;
                assert(b[w + 1] == k && b[0] < b[w + 1]);
                assert(b.contains(k));
                let v = choose|v: int| 0 <= v < a.len() && a[v] == k;
                assert(v != 0);
                assert(a1[v - 1] == k);
            }
        }
        assert(increasing(a1)) by {
            assert forall|p: int, q: int| 0 <= p < q < a1.len() implies a1[p] < a1[q] by {
                assert(a1[p] == a[p + 1] && a1[q] == a[q + 1]);
            }
        }
        assert(increasing(b1)) by {
            assert forall|p: int, q: int| 0 <= p < q < b1.len() implies b1[p] < b1[q] by {
                assert(b1[p] == b[p + 1] && b1[q] == b[q + 1]);
            }
        }
        lemma_increasing_unique(a1, b1);
        assert forall|k: int| 0 <= k < a.len() implies a[k] == b[k] by {
            if k > 0 {
                assert(a[k] == a1[k - 1] && b[k] == b1[k - 1]);
            }
        }
        assert(a =~= b);
    }
}

/// One cell of the simple grid: the entities recorded in it, by slot.
pub struct MatrixSimpleCell {
    pub(crate) inner: Slab<MatrixSimpleCellContent>,
}

impl MatrixSimpleCell {
    pub closed spec fn entries(&self) -> Map<usize, MatrixSimpleCellContent> {
        simple_cell_entries(self.inner)
    }

    /// `Slab::new`: an empty slab.
    #[verifier::external_body]
    pub(crate) fn new() -> (made: MatrixSimpleCell)
        ensures
            simple_cell_entries(made.inner).dom().is_empty(),
    {
        MatrixSimpleCell { inner: Slab::new() }
    }

    /// `Slab::insert`: stores the value under a key that was vacant and
    /// returns that key; the other entries stay.
    #[verifier::external_body]
    pub(crate) fn insert(&mut self, content: MatrixSimpleCellContent) -> (key: usize)
        ensures
            !simple_cell_entries(old(self).inner).contains_key(key),
            simple_cell_entries(final(self).inner) == simple_cell_entries(old(self).inner).insert(key, content),
    {
        self.inner.insert(content)
    }

    /// `Slab::remove`: takes out the value under an occupied key.
    #[verifier::external_body]
    pub(crate) fn remove(&mut self, key: usize) -> (content: MatrixSimpleCellContent)
        requires
            simple_cell_entries(old(self).inner).contains_key(key),
        ensures
            content == simple_cell_entries(old(self).inner)[key],
            simple_cell_entries(final(self).inner) == simple_cell_entries(old(self).inner).remove(key),
    {
        self.inner.remove(key)
    }

    /// `Slab::get`: the value under an occupied key.
    #[verifier::external_body]
    pub(crate) fn get(&self, key: usize) -> (content: MatrixSimpleCellContent)
        requires
            simple_cell_entries(self.inner).contains_key(key),
        ensures
            content == simple_cell_entries(self.inner)[key],
    {
        *self.inner.get(key).unwrap()
    }

    /// `Slab::get_mut`: overwrites the value under an occupied key.
    #[verifier::external_body]
    pub(crate) fn set(&mut self, key: usize, content: MatrixSimpleCellContent)
        requires
            simple_cell_entries(old(self).inner).contains_key(key),
        ensures
            simple_cell_entries(final(self).inner) == simple_cell_entries(old(self).inner).insert(key, content),
    {
        *self.inner.get_mut(key).unwrap() = content;
    }

    /// `Slab::iter`, keeping the keys: the occupied keys, in increasing
    /// order.
    #[verifier::external_body]
    pub(crate) fn keys(&self) -> (keys: Vec<usize>)
        ensures
            forall|i: int, j: int| 0 <= i < j < keys@.len() ==> keys@[i] < keys@[j],
            forall|k: usize| simple_cell_entries(self.inner).contains_key(k) <==> keys@.contains(k),
    {
        self.inner.iter().map(|(key, _)| key).collect()
    }

    /// `Slab::shrink_to_fit`: frees spare room; the entries stay.
    #[verifier::external_body]
    pub(crate) fn shrink_to_fit(&mut self)
        ensures
            simple_cell_entries(final(self).inner) == simple_cell_entries(old(self).inner),
    {
        self.inner.shrink_to_fit()
    }
}

/// The simple grid: a matrix of cells of `size_field` world units, each
/// recording the entities whose position falls in it.
pub struct MatrixSimple {
    pub inner: Vec<Vec<MatrixSimpleCell>>,
    pub size: Size2D,
    pub size_field: i32,
}

/// The number of cells of `size_field` units that cover `total` units.
pub open spec fn cells_to_cover(total: int, size_field: int) -> int {
    total / size_field + if total % size_field >= 1 { 1int } else { 0int }
}

/// Covering a non-negative `i32` length with cells needs at most `i32::MAX`
/// cells.
pub proof fn lemma_cover_fits(total: int, size_field: int)
    requires
        0 <= total <= i32::MAX,
        size_field > 0,
    ensures
        0 <= cells_to_cover(total, size_field) <= i32::MAX,
        cells_to_cover(total, size_field) <= total,
        total % size_field >= 1 ==> total / size_field < i32::MAX,
{
    assert(total / size_field <= total) by (nonlinear_arith)
        requires
            total >= 0,
            size_field > 0,
    ;
    assert(total % size_field >= 1 ==> total / size_field < total) by (nonlinear_arith)
        requires
            total >= 0,
            size_field > 0,
    ;
}

impl MatrixSimple {
    /// The matrix has `size.width` columns of `size.height` cells.
    pub closed spec fn wf(&self) -> bool {
        &&& self.size_field > 0
        &&& self.size.width >= 0
        &&& self.size.height >= 0
        &&& self.inner@.len() == self.size.width
        &&& forall|x: int| 0 <= x < self.inner@.len() ==> #[trigger] self.inner@[x]@.len() == self.size.height
    }

    /// What cell `(x, y)` records, by slot.
    pub open spec fn cell(&self, x: int, y: int) -> Map<usize, MatrixSimpleCellContent> {
        self.inner@[x]@[y].entries()
    }

    /// A grid of `ceil(width / size_field)` by `ceil(height / size_field)`
    /// empty cells.
    pub fn new(size_total: Size2D, size_field: i32) -> (m: MatrixSimple)
        requires
            size_field > 0,
            size_total.width >= 0,
            size_total.height >= 0,
        ensures
            m.wf(),
            m.size_field == size_field,
            m.size.width == cells_to_cover(size_total.width as int, size_field as int),
            m.size.height == cells_to_cover(size_total.height as int, size_field as int),
            forall|x: int, y: int| 0 <= x < m.size.width && 0 <= y < m.size.height ==> #[trigger] m.cell(x, y).dom().is_empty(),
    {
        let rest_w = size_total.width % size_field;
        let rest_h = size_total.height % size_field;
        proof {
            lemma_cover_fits(size_total.width as int, size_field as int);
            lemma_cover_fits(size_total.height as int, size_field as int);
        }
        let size = Size2D {
            width: size_total.width / size_field + if rest_w >= 1 { 1 } else { 0 },
            height: size_total.height / size_field + if rest_h >= 1 { 1 } else { 0 },
        };
        let mut matrix: Vec<Vec<MatrixSimpleCell>> = Vec::new();
        let width = size.width as usize;
        let height = size.height as usize;
        let mut x: usize = 0;
        while x < width
            invariant
                x <= width,
                width == size.width,
                height == size.height,
                matrix@.len() == x,
                forall|i: int| 0 <= i < x ==> #[trigger] matrix@[i]@.len() == height,
                forall|i: int, j: int| 0 <= i < x && 0 <= j < height ==> #[trigger] matrix@[i]@[j].entries().dom().is_empty(),
            decreases width - x,
        {
            let mut column: Vec<MatrixSimpleCell> = Vec::new();
            let mut y: usize = 0;
            while y < height
                invariant
                    y <= height,
                    column@.len() == y,
                    forall|j: int| 0 <= j < y ==> #[trigger] column@[j].entries().dom().is_empty(),
                decreases height - y,
            {
                column.push(MatrixSimpleCell::new());
                y = y + 1;
            }
            matrix.push(column);
            x = x + 1;
        }
        MatrixSimple { inner: matrix, size, size_field }
    }

    /// The keys of the occupied slots of cell `(x, y)`, in increasing order.
    pub fn cell_keys(&self, x: usize, y: usize) -> (keys: Vec<usize>)
        requires
            self.wf(),
            self.in_grid(x as int, y as int),
        ensures
            forall|i: int, j: int| 0 <= i < j < keys@.len() ==> keys@[i] < keys@[j],
            forall|k: usize| self.cell(x as int, y as int).contains_key(k) <==> keys@.contains(k),
            keys@ == slots_in_order(self.cell(x as int, y as int)),
    {
        let keys = self.inner[x][y].keys();
        proof {
            let c = self.cell(x as int, y as int);
            assert(increasing(keys@) && forall|k: usize| c.contains_key(k) <==> keys@.contains(k));
            let s = slots_in_order(c);
            lemma_increasing_unique(keys@, s);
        }
        keys
    }

    /// What slot `z` of cell `(x, y)` records.
    pub fn cell_content(&self, x: usize, y: usize, z: usize) -> (c: MatrixSimpleCellContent)
        requires
            self.wf(),
            self.in_grid(x as int, y as int),
            self.cell(x as int, y as int).contains_key(z),
        ensures
            c == self.cell(x as int, y as int)[z],
    {
        self.inner[x][y].get(z)
    }

    /// Frees the spare room of cell `(x, y)`; what every cell records
    /// stays.
    pub fn shrink_cell(&mut self, x: usize, y: usize)
        requires
            old(self).wf(),
            old(self).in_grid(x as int, y as int),
        ensures
            final(self).wf(),
            final(self).size == old(self).size,
            final(self).size_field == old(self).size_field,
            forall|i: int, j: int| old(self).in_grid(i, j) ==> #[trigger] final(self).cell(i, j) == old(self).cell(i, j),
    {
        self.inner[x][y].shrink_to_fit();
    }

    /// The cell coordinates are inside the grid.
    pub open spec fn in_grid(&self, x: int, y: int) -> bool {
        0 <= x < self.size.width && 0 <= y < self.size.height
    }

    /// Every entity is recorded in the slot that its grid index names, and
    /// every recorded slot belongs to the entity that it names.
    pub open spec fn consistent(&self, index: Seq<MatrixIndex>) -> bool {
        &&& forall|i: int| 0 <= i < index.len() ==> {
            &&& self.in_grid((#[trigger] index[i]).x as int, index[i].y as int)
            &&& self.cell(index[i].x as int, index[i].y as int).contains_key(index[i].z)
            &&& self.cell(index[i].x as int, index[i].y as int)[index[i].z].entity == i
        }
        &&& forall|x: int, y: int, z: usize| self.in_grid(x, y) && #[trigger] self.cell(x, y).contains_key(z) ==> {
            &&& self.cell(x, y)[z].entity < index.len()
            &&& index[self.cell(x, y)[z].entity as int] == (MatrixIndex { x: x as usize, y: y as usize, z })
        }
    }

    /// Only cell `(x0, y0)` differs from `before`, and it now holds `c`.
    pub open spec fn changes_only(&self, before: &MatrixSimple, x0: int, y0: int, c: Map<usize, MatrixSimpleCellContent>) -> bool {
        &&& self.wf()
        &&& self.size == before.size
        &&& self.size_field == before.size_field
        &&& forall|x: int, y: int| before.in_grid(x, y) ==> #[trigger] self.cell(x, y) == if x == x0 && y == y0 {
            c
        } else {
            before.cell(x, y)
        }
    }

    /// The position lies within the area that the grid covers.
    pub open spec fn covers(&self, p: Point2D) -> bool {
        &&& 0 <= p.x
        &&& 0 <= p.y
        &&& self.in_grid(self.field_of(p).0, self.field_of(p).1)
    }

    /// The cell whose area holds the point.
    pub open spec fn field_of(&self, p: Point2D) -> (int, int) {
        ((p.x as int) / (self.size_field as int), (p.y as int) / (self.size_field as int))
    }

    /// The cell whose area holds the entity's current position.
    pub fn get_field_entity(&self, entities: &Entities, entity: usize) -> (xy: (usize, usize))
        requires
            self.wf(),
            entities.sizes_ok(),
            entity < entities.core@.len(),
            entities.position@[entity as int].x >= 0,
            entities.position@[entity as int].y >= 0,
        ensures
            xy.0 == self.field_of(entities.position@[entity as int]).0,
            xy.1 == self.field_of(entities.position@[entity as int]).1,
    {
        let entity_position = entities.position[entity];
        let x = (entity_position.x / self.size_field) as usize;
        let y = (entity_position.y / self.size_field) as usize;
        (x, y)
    }

    /// The entity's position has left the cell that records it.
    pub fn entity_has_moved(&self, entities: &Entities, entity: usize) -> (moved: bool)
        requires
            self.wf(),
            entities.sizes_ok(),
            entity < entities.core@.len(),
            entities.position@[entity as int].x >= 0,
            entities.position@[entity as int].y >= 0,
        ensures
            moved == !(entities.index_matrix_simple@[entity as int].x == self.field_of(entities.position@[entity as int]).0
                && entities.index_matrix_simple@[entity as int].y == self.field_of(entities.position@[entity as int]).1),
    {
        let (x, y) = self.get_field_entity(entities, entity);
        let index = entities.index_matrix_simple[entity];
        !(index.x == x && index.y == y)
    }

    /// Records the entity under a new index in the slot that its grid
    /// index names.
    pub fn update_entity_index(&mut self, entities: &Entities, entity: usize)
        requires
            old(self).wf(),
            entities.sizes_ok(),
            entity < entities.core@.len(),
            old(self).in_grid(entities.index_matrix_simple@[entity as int].x as int, entities.index_matrix_simple@[entity as int].y as int),
            old(self).cell(entities.index_matrix_simple@[entity as int].x as int, entities.index_matrix_simple@[entity as int].y as int)
                .contains_key(entities.index_matrix_simple@[entity as int].z),
        ensures
            final(self).wf(),
            final(self).size == old(self).size,
            final(self).size_field == old(self).size_field,
            ({
                let ix = entities.index_matrix_simple@[entity as int];
                forall|x: int, y: int| old(self).in_grid(x, y) ==> #[trigger] final(self).cell(x, y) == if x == ix.x && y == ix.y {
                    old(self).cell(x, y).insert(ix.z, MatrixSimpleCellContent { entity, ..old(self).cell(x, y)[ix.z] })
                } else {
                    old(self).cell(x, y)
                }
            }),
    {
        let (x, y, z) = entities.index_matrix_simple[entity].xyz();
        let content = self.inner[x][y].get(z);
        self.inner[x][y].set(z, MatrixSimpleCellContent { entity, position: content.position });
    }

    /// Copies the entity's current position into the slot that records it.
    pub fn update_entity_position(&mut self, entities: &Entities, entity: usize)
        requires
            old(self).wf(),
            entities.sizes_ok(),
            entity < entities.core@.len(),
            old(self).in_grid(entities.index_matrix_simple@[entity as int].x as int, entities.index_matrix_simple@[entity as int].y as int),
            old(self).cell(entities.index_matrix_simple@[entity as int].x as int, entities.index_matrix_simple@[entity as int].y as int)
                .contains_key(entities.index_matrix_simple@[entity as int].z),
        ensures
            ({
                let ix = entities.index_matrix_simple@[entity as int];
                let c = old(self).cell(ix.x as int, ix.y as int);
                final(self).changes_only(
                    old(self),
                    ix.x as int,
                    ix.y as int,
                    c.insert(ix.z, MatrixSimpleCellContent { position: entities.position@[entity as int], ..c[ix.z] }),
                )
            }),
    {
        let position = entities.position[entity];
        let (x, y, z) = entities.index_matrix_simple[entity].xyz();
        let content = self.inner[x][y].get(z);
        self.inner[x][y].set(z, MatrixSimpleCellContent { entity: content.entity, position });
    }

    /// The same as `update_entity_position`; the caller holds the only
    /// access to the cell.
    pub fn update_entity_position_no_lock(&mut self, entities: &Entities, entity: usize)
        requires
            old(self).wf(),
            entities.sizes_ok(),
            entity < entities.core@.len(),
            old(self).in_grid(entities.index_matrix_simple@[entity as int].x as int, entities.index_matrix_simple@[entity as int].y as int),
            old(self).cell(entities.index_matrix_simple@[entity as int].x as int, entities.index_matrix_simple@[entity as int].y as int)
                .contains_key(entities.index_matrix_simple@[entity as int].z),
        ensures
            ({
                let ix = entities.index_matrix_simple@[entity as int];
                let c = old(self).cell(ix.x as int, ix.y as int);
                final(self).changes_only(
                    old(self),
                    ix.x as int,
                    ix.y as int,
                    c.insert(ix.z, MatrixSimpleCellContent { position: entities.position@[entity as int], ..c[ix.z] }),
                )
            }),
    {
        self.update_entity_position(entities, entity)
    }

    /// Frees the slot that records the entity.
    pub fn delete_entity(&mut self, entities: &Entities, entity: usize)
        requires
            old(self).wf(),
            entities.sizes_ok(),
            entity < entities.core@.len(),
            old(self).in_grid(entities.index_matrix_simple@[entity as int].x as int, entities.index_matrix_simple@[entity as int].y as int),
            old(self).cell(entities.index_matrix_simple@[entity as int].x as int, entities.index_matrix_simple@[entity as int].y as int)
                .contains_key(entities.index_matrix_simple@[entity as int].z),
        ensures
            ({
                let ix = entities.index_matrix_simple@[entity as int];
                final(self).changes_only(
                    old(self),
                    ix.x as int,
                    ix.y as int,
                    old(self).cell(ix.x as int, ix.y as int).remove(ix.z),
                )
            }),
    {
        let (x, y, z) = entities.index_matrix_simple[entity].xyz();
        self.inner[x][y].remove(z);
    }

    /// Records the entity, with its current position, in a free slot of the
    /// cell under its position, and gives it that slot as grid index.
    pub fn add_entity(&mut self, entities: &mut Entities, entity: usize)
        requires
            old(self).wf(),
            old(entities).sizes_ok(),
            entity < old(entities).core@.len(),
            old(self).covers(old(entities).position@[entity as int]),
        ensures
            final(entities).same_but_grid_index(old(entities)),
            ({
                let p = old(entities).position@[entity as int];
                let (x, y) = old(self).field_of(p);
                let ix = final(entities).index_matrix_simple@[entity as int];
                &&& ix.x == x
                &&& ix.y == y
                &&& !old(self).cell(x, y).contains_key(ix.z)
                &&& final(entities).index_matrix_simple@ == old(entities).index_matrix_simple@.update(entity as int, ix)
                &&& final(self).changes_only(
                    old(self),
                    x,
                    y,
                    old(self).cell(x, y).insert(ix.z, MatrixSimpleCellContent { entity, position: p }),
                )
            }),
    {
        let (x, y) = self.get_field_entity(entities, entity);
        let position = entities.position[entity];
        let z = self.inner[x][y].insert(MatrixSimpleCellContent { entity, position });
        entities.index_matrix_simple.set(entity, MatrixIndex { x, y, z });
    }

    /// Moves the entity's record to the cell under its current position.
    pub fn update_entity(&mut self, entities: &mut Entities, entity: usize)
        requires
            old(self).wf(),
            old(entities).sizes_ok(),
            entity < old(entities).core@.len(),
            old(self).consistent(old(entities).index_matrix_simple@),
            old(self).covers(old(entities).position@[entity as int]),
        ensures
            final(self).wf(),
            final(self).size == old(self).size,
            final(self).size_field == old(self).size_field,
            final(entities).same_but_grid_index(old(entities)),
            final(self).consistent(final(entities).index_matrix_simple@),
            ({
                let p = old(entities).position@[entity as int];
                let ix = final(entities).index_matrix_simple@[entity as int];
                &&& (ix.x as int, ix.y as int) == old(self).field_of(p)
                &&& final(entities).index_matrix_simple@ == old(entities).index_matrix_simple@.update(entity as int, ix)
                &&& final(self).cell(ix.x as int, ix.y as int)[ix.z] == (MatrixSimpleCellContent { entity, position: p })
            }),
    {
        let ghost m0 = *self;
        let ghost idx0 = entities.index_matrix_simple@;
        self.delete_entity(entities, entity);
        let ghost m1 = *self;
        self.add_entity(entities, entity);
        proof {
            lemma_move_keeps_consistent(m0, m1, *self, idx0, entities.index_matrix_simple@, entity as int);
        }
    }

    /// The same as `update_entity`; the caller holds the only access to the
    /// two cells.
    pub fn update_entity_multithread(&mut self, entities: &mut Entities, entity: usize)
        requires
            old(self).wf(),
            old(entities).sizes_ok(),
            entity < old(entities).core@.len(),
            old(self).consistent(old(entities).index_matrix_simple@),
            old(self).covers(old(entities).position@[entity as int]),
        ensures
            final(self).wf(),
            final(self).size == old(self).size,
            final(self).size_field == old(self).size_field,
            final(entities).same_but_grid_index(old(entities)),
            final(self).consistent(final(entities).index_matrix_simple@),
            ({
                let p = old(entities).position@[entity as int];
                let ix = final(entities).index_matrix_simple@[entity as int];
                &&& (ix.x as int, ix.y as int) == old(self).field_of(p)
                &&& final(entities).index_matrix_simple@ == old(entities).index_matrix_simple@.update(entity as int, ix)
                &&& final(self).cell(ix.x as int, ix.y as int)[ix.z] == (MatrixSimpleCellContent { entity, position: p })
            }),
    {
        self.update_entity(entities, entity)
    }

    /// Brings the entity's record up to date: an entity still in the cell
    /// that records it has its recorded position refreshed; one that left
    /// it is recorded anew in the cell under its position.
    pub fn update_entity_2(&mut self, entities: &mut Entities, entity: usize)
        requires
            old(self).wf(),
            old(entities).sizes_ok(),
            entity < old(entities).core@.len(),
            old(self).consistent(old(entities).index_matrix_simple@),
            old(self).covers(old(entities).position@[entity as int]),
        ensures
            final(self).wf(),
            final(self).size == old(self).size,
            final(self).size_field == old(self).size_field,
            final(entities).same_but_grid_index(old(entities)),
            final(self).consistent(final(entities).index_matrix_simple@),
            ({
                let p = old(entities).position@[entity as int];
                let ix0 = old(entities).index_matrix_simple@[entity as int];
                let ix = final(entities).index_matrix_simple@[entity as int];
                &&& (ix.x as int, ix.y as int) == old(self).field_of(p)
                &&& final(entities).index_matrix_simple@ == old(entities).index_matrix_simple@.update(entity as int, ix)
                &&& final(self).cell(ix.x as int, ix.y as int)[ix.z] == (MatrixSimpleCellContent { entity, position: p })
                &&& (ix0.x as int, ix0.y as int) == old(self).field_of(p) ==> ix == ix0
            }),
    {
        if !self.entity_has_moved(entities, entity) {
            let ghost m0 = *self;
            let ghost ix = entities.index_matrix_simple@[entity as int];
            proof {
                assert(m0.cell(ix.x as int, ix.y as int).contains_key(ix.z));
                assert(m0.cell(ix.x as int, ix.y as int)[ix.z].entity == entity);
            }
            self.update_entity_position(entities, entity);
            proof {
                lemma_position_update_keeps_consistent(
                    m0,
                    *self,
                    entities.index_matrix_simple@,
                    entity as int,
                    entities.position@[entity as int],
                );
                assert(entities.index_matrix_simple@ =~= entities.index_matrix_simple@.update(entity as int, ix));
            }
        } else {
            self.update_entity(entities, entity);
        }
    }

    /// The same as `update_entity_2`; the caller holds the only access to
    /// the cells.
    pub fn update_entity_multithread_2(&mut self, entities: &mut Entities, entity: usize)
        requires
            old(self).wf(),
            old(entities).sizes_ok(),
            entity < old(entities).core@.len(),
            old(self).consistent(old(entities).index_matrix_simple@),
            old(self).covers(old(entities).position@[entity as int]),
        ensures
            final(self).wf(),
            final(self).size == old(self).size,
            final(self).size_field == old(self).size_field,
            final(entities).same_but_grid_index(old(entities)),
            final(self).consistent(final(entities).index_matrix_simple@),
            ({
                let p = old(entities).position@[entity as int];
                let ix0 = old(entities).index_matrix_simple@[entity as int];
                let ix = final(entities).index_matrix_simple@[entity as int];
                &&& (ix.x as int, ix.y as int) == old(self).field_of(p)
                &&& final(entities).index_matrix_simple@ == old(entities).index_matrix_simple@.update(entity as int, ix)
                &&& final(self).cell(ix.x as int, ix.y as int)[ix.z] == (MatrixSimpleCellContent { entity, position: p })
                &&& (ix0.x as int, ix0.y as int) == old(self).field_of(p) ==> ix == ix0
            }),
    {
        self.update_entity_2(entities, entity)
    }

    /// The same as `delete_entity`; the caller holds the only access to the
    /// cell.
    pub fn delete_entity_multithread(&mut self, entities: &Entities, entity: usize)
        requires
            old(self).wf(),
            entities.sizes_ok(),
            entity < entities.core@.len(),
            old(self).in_grid(entities.index_matrix_simple@[entity as int].x as int, entities.index_matrix_simple@[entity as int].y as int),
            old(self).cell(entities.index_matrix_simple@[entity as int].x as int, entities.index_matrix_simple@[entity as int].y as int)
                .contains_key(entities.index_matrix_simple@[entity as int].z),
        ensures
            ({
                let ix = entities.index_matrix_simple@[entity as int];
                final(self).changes_only(
                    old(self),
                    ix.x as int,
                    ix.y as int,
                    old(self).cell(ix.x as int, ix.y as int).remove(ix.z),
                )
            }),
    {
        self.delete_entity(entities, entity)
    }

    /// The same as `add_entity`; the caller holds the only access to the
    /// cell.
    pub fn add_entity_multithread(&mut self, entities: &mut Entities, entity: usize)
        requires
            old(self).wf(),
            old(entities).sizes_ok(),
            entity < old(entities).core@.len(),
            old(self).covers(old(entities).position@[entity as int]),
        ensures
            final(entities).same_but_grid_index(old(entities)),
            ({
                let p = old(entities).position@[entity as int];
                let (x, y) = old(self).field_of(p);
                let ix = final(entities).index_matrix_simple@[entity as int];
                &&& ix.x == x
                &&& ix.y == y
                &&& !old(self).cell(x, y).contains_key(ix.z)
                &&& final(entities).index_matrix_simple@ == old(entities).index_matrix_simple@.update(entity as int, ix)
                &&& final(self).changes_only(
                    old(self),
                    x,
                    y,
                    old(self).cell(x, y).insert(ix.z, MatrixSimpleCellContent { entity, position: p }),
                )
            }),
    {
        self.add_entity(entities, entity)
    }
}

/// Freeing the slot of `entity` and recording it anew elsewhere keeps the
/// grid consistent with the updated indexes.
pub proof fn lemma_move_keeps_consistent(
    m0: MatrixSimple,
    m1: MatrixSimple,
    m2: MatrixSimple,
    idx0: Seq<MatrixIndex>,
    idx2: Seq<MatrixIndex>,
    entity: int,
)
    requires
        m0.wf(),
        m0.consistent(idx0),
        0 <= entity < idx0.len(),
        m1.changes_only(&m0, idx0[entity].x as int, idx0[entity].y as int,
            m0.cell(idx0[entity].x as int, idx0[entity].y as int).remove(idx0[entity].z)),
        idx2 == idx0.update(entity, idx2[entity]),
        m1.in_grid(idx2[entity].x as int, idx2[entity].y as int),
        !m1.cell(idx2[entity].x as int, idx2[entity].y as int).contains_key(idx2[entity].z),
        m2.changes_only(&m1, idx2[entity].x as int, idx2[entity].y as int,
            m1.cell(idx2[entity].x as int, idx2[entity].y as int).insert(idx2[entity].z,
                MatrixSimpleCellContent { entity: entity as usize, position: m2.cell(idx2[entity].x as int, idx2[entity].y as int)[idx2[entity].z].position })),
    ensures
        m2.consistent(idx2),
{
    let a = idx0[entity];
    let b = idx2[entity];
    assert forall|i: int| 0 <= i < idx2.len() implies {
        &&& m2.in_grid((#[trigger] idx2[i]).x as int, idx2[i].y as int)
        &&& m2.cell(idx2[i].x as int, idx2[i].y as int).contains_key(idx2[i].z)
        &&& m2.cell(idx2[i].x as int, idx2[i].y as int)[idx2[i].z].entity == i
    } by {
        if i != entity {
            let c = idx0[i];
            assert(m0.in_grid(c.x as int, c.y as int));
            assert(m0.cell(c.x as int, c.y as int).contains_key(c.z));
            assert(m0.cell(c.x as int, c.y as int)[c.z].entity == i);
            assert(m0.cell(a.x as int, a.y as int)[a.z].entity == entity);
            assert(m1.cell(c.x as int, c.y as int).contains_key(c.z));
        }
    }
    assert forall|x: int, y: int, z: usize| m2.in_grid(x, y) && #[trigger] m2.cell(x, y).contains_key(z) implies {
        &&& m2.cell(x, y)[z].entity < idx2.len()
        &&& idx2[m2.cell(x, y)[z].entity as int] == (MatrixIndex { x: x as usize, y: y as usize, z })
    } by {
        if !(x == b.x && y == b.y && z == b.z) {
            assert(m1.cell(x, y).contains_key(z));
            assert(m0.cell(x, y).contains_key(z));
            let e = m0.cell(x, y)[z].entity;
            assert(idx0[e as int] == (MatrixIndex { x: x as usize, y: y as usize, z }));
            assert(e != entity);
        }
    }
}

/// Recording a new entity, the last one, in a fresh slot keeps the grid
/// consistent with the indexes extended by that slot.
pub proof fn lemma_add_keeps_consistent(
    m1: MatrixSimple,
    m2: MatrixSimple,
    idx1: Seq<MatrixIndex>,
    idx2: Seq<MatrixIndex>,
    c: MatrixSimpleCellContent,
)
    requires
        m1.wf(),
        idx1.len() > 0,
        m1.consistent(idx1.drop_last()),
        idx2 == idx1.update(idx1.len() - 1, idx2.last()),
        c.entity == idx1.len() - 1,
        m1.in_grid(idx2.last().x as int, idx2.last().y as int),
        !m1.cell(idx2.last().x as int, idx2.last().y as int).contains_key(idx2.last().z),
        m2.changes_only(&m1, idx2.last().x as int, idx2.last().y as int,
            m1.cell(idx2.last().x as int, idx2.last().y as int).insert(idx2.last().z, c)),
    ensures
        m2.consistent(idx2),
{
    let n = idx1.len() - 1;
    let b = idx2.last();
    let old_idx = idx1.drop_last();
    assert forall|i: int| 0 <= i < idx2.len() implies {
        &&& m2.in_grid((#[trigger] idx2[i]).x as int, idx2[i].y as int)
        &&& m2.cell(idx2[i].x as int, idx2[i].y as int).contains_key(idx2[i].z)
        &&& m2.cell(idx2[i].x as int, idx2[i].y as int)[idx2[i].z].entity == i
    } by {
        if i != n {
            assert(idx2[i] == old_idx[i]);
            let a = old_idx[i];
            assert(m1.in_grid(a.x as int, a.y as int));
            assert(m1.cell(a.x as int, a.y as int).contains_key(a.z));
        }
    }
    assert forall|x: int, y: int, z: usize| m2.in_grid(x, y) && #[trigger] m2.cell(x, y).contains_key(z) implies {
        &&& m2.cell(x, y)[z].entity < idx2.len()
        &&& idx2[m2.cell(x, y)[z].entity as int] == (MatrixIndex { x: x as usize, y: y as usize, z })
    } by {
        if !(x == b.x && y == b.y && z == b.z) {
            assert(m1.cell(x, y).contains_key(z));
            let e = m1.cell(x, y)[z].entity;
            assert(old_idx[e as int] == (MatrixIndex { x: x as usize, y: y as usize, z }));
            assert(idx2[e as int] == old_idx[e as int]);
        }
    }
}

/// Freeing the slot of entity `index`, moving the last entity into its
/// place and telling the moved entity's slot its new index keeps the grid
/// consistent with the indexes after the move.
pub proof fn lemma_swap_remove_keeps_consistent(
    m0: MatrixSimple,
    m1: MatrixSimple,
    m2: MatrixSimple,
    idx0: Seq<MatrixIndex>,
    index: int,
)
    requires
        m0.wf(),
        m0.consistent(idx0),
        0 <= index < idx0.len(),
        m1.changes_only(&m0, idx0[index].x as int, idx0[index].y as int,
            m0.cell(idx0[index].x as int, idx0[index].y as int).remove(idx0[index].z)),
        index == idx0.len() - 1 ==> m2 == m1,
        index < idx0.len() - 1 ==> ({
            let b = idx0.last();
            let c = m1.cell(b.x as int, b.y as int);
            m2.changes_only(&m1, b.x as int, b.y as int,
                c.insert(b.z, MatrixSimpleCellContent { entity: index as usize, ..c[b.z] }))
        }),
    ensures
        m2.wf(),
        m2.size == m0.size,
        m2.consistent(idx0.update(index, idx0.last()).drop_last()),
{
    let last = idx0.len() - 1;
    let a = idx0[index];
    let b = idx0[last];
    let idx2 = idx0.update(index, idx0.last()).drop_last();
    assert(m0.cell(a.x as int, a.y as int)[a.z].entity == index);
    assert(m0.cell(b.x as int, b.y as int)[b.z].entity == last);
    assert forall|i: int| 0 <= i < idx2.len() implies {
        &&& m2.in_grid((#[trigger] idx2[i]).x as int, idx2[i].y as int)
        &&& m2.cell(idx2[i].x as int, idx2[i].y as int).contains_key(idx2[i].z)
        &&& m2.cell(idx2[i].x as int, idx2[i].y as int)[idx2[i].z].entity == i
    } by {
        let src = if i == index { last } else { i };
        assert(idx2[i] == idx0[src]);
        let c = idx0[src];
        assert(m0.in_grid(c.x as int, c.y as int));
        assert(m0.cell(c.x as int, c.y as int).contains_key(c.z));
        assert(m0.cell(c.x as int, c.y as int)[c.z].entity == src);
        assert(m1.cell(c.x as int, c.y as int).contains_key(c.z));
    }
    assert forall|x: int, y: int, z: usize| m2.in_grid(x, y) && #[trigger] m2.cell(x, y).contains_key(z) implies {
        &&& m2.cell(x, y)[z].entity < idx2.len()
        &&& idx2[m2.cell(x, y)[z].entity as int] == (MatrixIndex { x: x as usize, y: y as usize, z })
    } by {
        assert(m1.cell(x, y).contains_key(z));
        assert(m0.cell(x, y).contains_key(z));
        let e = m0.cell(x, y)[z].entity;
        assert(idx0[e as int] == (MatrixIndex { x: x as usize, y: y as usize, z }));
        assert(e != index);
        if e == last {
            assert(x == b.x && y == b.y && z == b.z);
        }
    }
}

/// Rewriting the position that a slot records keeps the grid consistent:
/// the slots and the entities they name stay.
pub proof fn lemma_position_update_keeps_consistent(
    m0: MatrixSimple,
    m1: MatrixSimple,
    idx: Seq<MatrixIndex>,
    entity: int,
    p: Point2D,
)
    requires
        m0.wf(),
        m0.consistent(idx),
        0 <= entity < idx.len(),
        ({
            let ix = idx[entity];
            let c = m0.cell(ix.x as int, ix.y as int);
            m1.changes_only(&m0, ix.x as int, ix.y as int, c.insert(ix.z, MatrixSimpleCellContent { position: p, ..c[ix.z] }))
        }),
    ensures
        m1.consistent(idx),
{
    let ix = idx[entity];
    assert forall|i: int| 0 <= i < idx.len() implies {
        &&& m1.in_grid((#[trigger] idx[i]).x as int, idx[i].y as int)
        &&& m1.cell(idx[i].x as int, idx[i].y as int).contains_key(idx[i].z)
        &&& m1.cell(idx[i].x as int, idx[i].y as int)[idx[i].z].entity == i
    } by {
        assert(m0.in_grid(idx[i].x as int, idx[i].y as int));
    }
    assert forall|x: int, y: int, z: usize| m1.in_grid(x, y) && #[trigger] m1.cell(x, y).contains_key(z) implies {
        &&& m1.cell(x, y)[z].entity < idx.len()
        &&& idx[m1.cell(x, y)[z].entity as int] == (MatrixIndex { x: x as usize, y: y as usize, z })
    } by {
        assert(m0.in_grid(x, y));
        assert(m0.cell(x, y).contains_key(z));
    }
}

/// The first column (or row) of a scan `scope` cells around cell `f`.
pub open spec fn scan_first(f: int, scope: int) -> int {
    if f - scope > 0 {
        f - scope
    } else {
        0
    }
}

/// The last column (or row) of that scan, within a grid of `size` cells.
pub open spec fn scan_last(f: int, scope: int, size: int) -> int {
    if f + scope < size - 1 {
        f + scope
    } else {
        size - 1
    }
}

/// The square of cell `(x, y)` meets `r` on an area.
pub open spec fn cell_meets(r: Rect, size_field: int, x: int, y: int) -> bool {
    &&& r.origin.x < x * size_field + size_field
    &&& r.max_x_spec() > x * size_field
    &&& r.origin.y < y * size_field + size_field
    &&& r.max_y_spec() > y * size_field
}

/// The cells of column `x`, rows `y0` to `y1`, that meet `r` (every one
/// of them with `all`), top to bottom.
pub open spec fn column_meeting(r: Rect, size_field: int, x: int, y0: int, y1: int, all: bool) -> Seq<(usize, usize)>
    decreases y1 - y0 + 1,
{
    if y1 < y0 {
        Seq::empty()
    } else {
        let before = column_meeting(r, size_field, x, y0, y1 - 1, all);
        if all || cell_meets(r, size_field, x, y1) {
            before.push((x as usize, y1 as usize))
        } else {
            before
        }
    }
}

/// The cells of columns `x0` to `x1` and rows `y0` to `y1` that meet `r`
/// (every one of them with `all`), column after column.
pub open spec fn cells_meeting(r: Rect, size_field: int, x0: int, x1: int, y0: int, y1: int, all: bool) -> Seq<(usize, usize)>
    decreases x1 - x0 + 1,
{
    if x1 < x0 {
        Seq::empty()
    } else {
        cells_meeting(r, size_field, x0, x1 - 1, y0, y1, all) + column_meeting(r, size_field, x1, y0, y1, all)
    }
}

/// Every cell listed lies in the columns and rows scanned.
pub proof fn lemma_cells_meeting_in_range(r: Rect, size_field: int, x0: int, x1: int, y0: int, y1: int, all: bool)
    requires
        0 <= x0,
        0 <= y0,
        x1 <= usize::MAX,
        y1 <= usize::MAX,
    ensures
        forall|k: int| 0 <= k < cells_meeting(r, size_field, x0, x1, y0, y1, all).len() ==> {
            let c = #[trigger] cells_meeting(r, size_field, x0, x1, y0, y1, all)[k];
            &&& x0 <= c.0 <= x1
            &&& y0 <= c.1 <= y1
        },
    decreases x1 - x0 + 1,
{
    if x1 >= x0 {
        lemma_cells_meeting_in_range(r, size_field, x0, x1 - 1, y0, y1, all);
        lemma_column_in_range(r, size_field, x1, y0, y1, all);
        let a = cells_meeting(r, size_field, x0, x1 - 1, y0, y1, all);
        let b = column_meeting(r, size_field, x1, y0, y1, all);
        assert forall|k: int| 0 <= k < (a + b).len() implies {
            let c = #[trigger] (a + b)[k];
            &&& x0 <= c.0 <= x1
            &&& y0 <= c.1 <= y1
        } by {
            if k >= a.len() {
                assert((a + b)[k] == b[k - a.len()]);
            }
        }
    }
}

proof fn lemma_column_in_range(r: Rect, size_field: int, x: int, y0: int, y1: int, all: bool)
    requires
        0 <= x <= usize::MAX,
        0 <= y0,
        y1 <= usize::MAX,
    ensures
        forall|k: int| 0 <= k < column_meeting(r, size_field, x, y0, y1, all).len() ==> {
            let c = #[trigger] column_meeting(r, size_field, x, y0, y1, all)[k];
            &&& c.0 == x
            &&& y0 <= c.1 <= y1
        },
    decreases y1 - y0 + 1,
{
    if y1 >= y0 {
        lemma_column_in_range(r, size_field, x, y0, y1 - 1, all);
        let before = column_meeting(r, size_field, x, y0, y1 - 1, all);
        let col = column_meeting(r, size_field, x, y0, y1, all);
        assert forall|k: int| 0 <= k < col.len() implies {
            let c = #[trigger] col[k];
            &&& c.0 == x
            &&& y0 <= c.1 <= y1
        } by {
            if k < before.len() {
                assert(col[k] == before[k]);
            }
        }
    }
}

impl MatrixSimple {
    /// The cells that the square around the entity meets: `radius` is the
    /// entity's radius in whole units; the cells looked at lie at most
    /// `radius / size_field + 1` cells from the entity's cell, within the
    /// grid, and are listed column after column.
    pub fn intersect_with(&self, entities: &Entities, entity: usize, radius: i32) -> (cells: Vec<(usize, usize)>)
        requires
            self.wf(),
            entities.sizes_ok(),
            entity < entities.core@.len(),
            self.in_grid(
                entities.index_matrix_simple@[entity as int].x as int,
                entities.index_matrix_simple@[entity as int].y as int,
            ),
            0 <= radius,
            2 * radius <= i32::MAX,
            i32::MIN <= entities.position@[entity as int].x - radius,
            entities.position@[entity as int].x + radius <= i32::MAX,
            i32::MIN <= entities.position@[entity as int].y - radius,
            entities.position@[entity as int].y + radius <= i32::MAX,
        ensures
            cells@ == self.cells_around_spec(entities, entity, radius, false),
    {
        self.cells_around(entities, entity, radius, false)
    }

    /// The cells scanned around the entity of radius `radius`: those at
    /// most `radius / size_field + 1` cells from its cell, within the grid,
    /// column after column; with `all` every one of them, otherwise those
    /// that the square around the entity meets.
    pub open spec fn cells_around_spec(&self, entities: &Entities, entity: usize, radius: i32, all: bool) -> Seq<(usize, usize)> {
        let ix = entities.index_matrix_simple@[entity as int];
        let scope = radius / self.size_field + 1;
        let p = entities.position@[entity as int];
        let r = Rect {
            origin: Point2D { x: (p.x - radius) as i32, y: (p.y - radius) as i32 },
            size: Size2D { width: (2 * radius) as i32, height: (2 * radius) as i32 },
        };
        cells_meeting(
            r,
            self.size_field as int,
            scan_first(ix.x as int, scope),
            scan_last(ix.x as int, scope, self.size.width as int),
            scan_first(ix.y as int, scope),
            scan_last(ix.y as int, scope, self.size.height as int),
            all,
        )
    }

    /// See `cells_around_spec`.
    pub fn cells_around(&self, entities: &Entities, entity: usize, radius: i32, all: bool) -> (cells: Vec<(usize, usize)>)
        requires
            self.wf(),
            entities.sizes_ok(),
            entity < entities.core@.len(),
            self.in_grid(
                entities.index_matrix_simple@[entity as int].x as int,
                entities.index_matrix_simple@[entity as int].y as int,
            ),
            0 <= radius,
            2 * radius <= i32::MAX,
            i32::MIN <= entities.position@[entity as int].x - radius,
            entities.position@[entity as int].x + radius <= i32::MAX,
            i32::MIN <= entities.position@[entity as int].y - radius,
            entities.position@[entity as int].y + radius <= i32::MAX,
        ensures
            cells@ == self.cells_around_spec(entities, entity, radius, all),
            forall|k: int| 0 <= k < cells@.len() ==> self.in_grid((#[trigger] cells@[k]).0 as int, cells@[k].1 as int),
    {
        let ix = entities.index_matrix_simple[entity];
        let sf = self.size_field as i64;
        let scope = (radius / self.size_field) as i64 + 1;
        let xf = ix.x as i64;
        let yf = ix.y as i64;
        let x0 = if xf - scope > 0 { xf - scope } else { 0 };
        let x1 = if xf + scope < self.size.width as i64 - 1 { xf + scope } else { self.size.width as i64 - 1 };
        let y0 = if yf - scope > 0 { yf - scope } else { 0 };
        let y1 = if yf + scope < self.size.height as i64 - 1 { yf + scope } else { self.size.height as i64 - 1 };
        let rect = entities.get_rect(entity, radius);
        let lx = rect.origin.x as i64;
        let ly = rect.origin.y as i64;
        let hx = rect.max_x() as i64;
        let hy = rect.max_y() as i64;
        let ghost sfi = self.size_field as int;
        let mut cells: Vec<(usize, usize)> = Vec::new();
        let mut x: i64 = x0;
        while x <= x1
            invariant
                0 <= x0,
                x0 <= x <= x1 + 1 || x == x0,
                x1 < self.size.width,
                y1 < self.size.height,
                0 <= y0,
                sf == sfi,
                0 < sfi <= i32::MAX,
                lx == rect.origin.x,
                ly == rect.origin.y,
                hx == rect.max_x_spec(),
                hy == rect.max_y_spec(),
                cells@ == cells_meeting(rect, sfi, x0 as int, x - 1, y0 as int, y1 as int, all),
            decreases x1 + 1 - x,
        {
            let mut y: i64 = y0;
            while y <= y1
                invariant
                    0 <= x0 <= x <= x1,
                    x1 < self.size.width,
                    y1 < self.size.height,
                    0 <= y0 <= y,
                    y <= y1 + 1 || y == y0,
                    sf == sfi,
                    0 < sfi <= i32::MAX,
                    lx == rect.origin.x,
                    ly == rect.origin.y,
                    hx == rect.max_x_spec(),
                    hy == rect.max_y_spec(),
                    cells@ == cells_meeting(rect, sfi, x0 as int, x - 1, y0 as int, y1 as int, all) + column_meeting(
                        rect,
                        sfi,
                        x as int,
                        y0 as int,
                        y - 1,
                        all,
                    ),
                decreases y1 + 1 - y,
            {
                proof {
                    assert(0 <= x * sf <= i32::MAX * i32::MAX) by (nonlinear_arith)
                        requires
                            0 <= x <= i32::MAX,
                            0 < sf <= i32::MAX,
                    ;
                    assert(0 <= y * sf <= i32::MAX * i32::MAX) by (nonlinear_arith)
                        requires
                            0 <= y <= i32::MAX,
                            0 < sf <= i32::MAX,
                    ;
                }
                let cx = x * sf;
                let cy = y * sf;
                let ghost before = cells@;
                if all || (lx < cx + sf && hx > cx && ly < cy + sf && hy > cy) {
                    cells.push((x as usize, y as usize));
                }
                proof {
                    assert(cells@ == cells_meeting(rect, sfi, x0 as int, x - 1, y0 as int, y1 as int, all) + column_meeting(
                        rect,
                        sfi,
                        x as int,
                        y0 as int,
                        y as int,
                        all,
                    ));
                }
                y = y + 1;
            }
            proof {
                assert(cells@ =~= cells_meeting(rect, sfi, x0 as int, x as int, y0 as int, y1 as int, all));
            }
            x = x + 1;
        }
        proof {
            lemma_cells_meeting_in_range(rect, sfi, x0 as int, x1 as int, y0 as int, y1 as int, all);
            if x0 > x1 {
                assert(cells@.len() == 0);
            }
        }
        cells
    }
}

} // verus!
