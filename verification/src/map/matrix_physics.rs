use vstd::prelude::*;
use vstd::arithmetic::power::{pow, lemma_pow_increases};
use crate::geometry::Size2D;
use crate::map::matrix_simple::cells_to_cover;

verus! {

/// Where the cell (`x_field`, `y_field`) of physics grid `index_matrix`
/// lies in each coarser grid above it, up to grid `matrix_count`: the
/// cells of grid `g` are `size_field_ratio` to the power
/// `g - index_matrix` times as wide, so the indexes are divided by that
/// power. Each entry is the grid, then the column and row there.
pub fn bigger_cells_index(
    index_matrix: usize,
    x_field: usize,
    y_field: usize,
    matrix_count: usize,
    size_field_ratio: usize,
) -> (v: Vec<(usize, usize, usize)>)
    requires
        index_matrix + 1 < matrix_count ==> {
            &&& size_field_ratio > 0
            &&& pow(size_field_ratio as int, (matrix_count - index_matrix - 1) as nat) <= usize::MAX
        },
    ensures
        v@.len() == if index_matrix + 1 < matrix_count { matrix_count - index_matrix - 1 } else { 0 },
        forall|k: int| 0 <= k < v@.len() ==> {
            let d = pow(size_field_ratio as int, (k + 1) as nat);
            &&& (#[trigger] v@[k]).0 == index_matrix + 1 + k
            &&& v@[k].1 == x_field as int / d
            &&& v@[k].2 == y_field as int / d
        },
{
    let mut v: Vec<(usize, usize, usize)> = Vec::new();
    if index_matrix >= matrix_count || matrix_count - index_matrix <= 1 {
        return v;
    }
    let ghost r = size_field_ratio as int;
    let ghost top = (matrix_count - index_matrix - 1) as nat;
    let mut g: usize = index_matrix + 1;
    let mut p: usize = size_field_ratio;
    proof {
        reveal(pow);
        assert(pow(r, 0) == 1);
        assert(pow(r, 1) == r * pow(r, 0));
    }
    while g < matrix_count
        invariant
            index_matrix < g <= matrix_count,
            size_field_ratio > 0,
            r == size_field_ratio,
            top == matrix_count - index_matrix - 1,
            pow(r, top) <= usize::MAX,
            g < matrix_count ==> p == pow(r, (g - index_matrix) as nat),
            v@.len() == g - index_matrix - 1,
            forall|k: int| 0 <= k < v@.len() ==> {
                let d = pow(r, (k + 1) as nat);
                &&& (#[trigger] v@[k]).0 == index_matrix + 1 + k
                &&& v@[k].1 == x_field as int / d
                &&& v@[k].2 == y_field as int / d
            },
        decreases matrix_count - g,
    {
        proof {
            lemma_pow_increases(size_field_ratio as nat, 0, (g - index_matrix) as nat);
            reveal(pow);
        }
        v.push((g, x_field / p, y_field / p));
        g = g + 1;
        if g < matrix_count {
            let ghost e = (g - index_matrix) as nat;
            proof {
                reveal(pow);
                assert(pow(r, e) == r * pow(r, (e - 1) as nat));
                lemma_pow_increases(size_field_ratio as nat, e, top);
                assert(p * size_field_ratio == r * pow(r, (e - 1) as nat)) by (nonlinear_arith)
                    requires
                        p == pow(r, (e - 1) as nat),
                        r == size_field_ratio,
                ;
            }
            p = p * size_field_ratio;
        }
    }
    v
}

/// One grid of the physics map: its place in the list, the width of its
/// cells in world units and its size in cells.
#[derive(Clone, Copy, Debug)]
pub struct PhysicsGrid {
    pub index: usize,
    pub size_field: i32,
    pub size: Size2D,
}

/// The grids of the physics map, from the finest to the coarsest: grid `i`
/// has cells `size_field_ratio` to the power `i` times as wide as the first
/// grid's.
pub struct MapPhysics {
    pub grids: Vec<PhysicsGrid>,
    pub size_field_initial: i32,
    pub size_field_ratio: i32,
    pub count: i32,
}

/// `g` is grid `i` of a physics map over `total` world units whose first
/// grid has cells `size_field_initial` wide, each grid's cells `ratio`
/// times as wide as the one before: enough cells to cover the map.
pub open spec fn physics_grid(g: PhysicsGrid, i: int, total: Size2D, size_field_initial: int, ratio: int) -> bool {
    let sf = size_field_initial * pow(ratio, i as nat);
    &&& g.index == i
    &&& g.size_field == sf
    &&& g.size.width == cells_to_cover(total.width as int, sf)
    &&& g.size.height == cells_to_cover(total.height as int, sf)
}

impl MapPhysics {
    /// The `count` grids over `size_total` world units (at most sixteen).
    pub fn new(size_total: Size2D, size_field_initial: i32, size_field_ratio: i32, count: i32) -> (m: MapPhysics)
        requires
            0 <= count <= 16,
            0 <= size_total.width,
            0 <= size_total.height,
            size_field_initial > 0,
            size_field_ratio > 0,
            count > 0 ==> size_field_initial * pow(size_field_ratio as int, (count - 1) as nat) <= i32::MAX,
        ensures
            m.size_field_initial == size_field_initial,
            m.size_field_ratio == size_field_ratio,
            m.count == count,
            m.grids@.len() == count,
            forall|i: int| 0 <= i < count ==> physics_grid(
                #[trigger] m.grids@[i],
                i,
                size_total,
                size_field_initial as int,
                size_field_ratio as int,
            ),
    {
        let ghost r = size_field_ratio as int;
        let ghost sfi = size_field_initial as int;
        let mut grids: Vec<PhysicsGrid> = Vec::new();
        let mut i: i32 = 0;
        let mut p: i32 = 1;
        proof {
            reveal(pow);
        }
        while i < count
            invariant
                0 <= i <= count,
                count <= 16,
                r == size_field_ratio,
                sfi == size_field_initial,
                r > 0,
                sfi > 0,
                0 <= size_total.width,
                0 <= size_total.height,
                count > 0 ==> sfi * pow(r, (count - 1) as nat) <= i32::MAX,
                i < count ==> p == pow(r, i as nat),
                grids@.len() == i,
                forall|k: int| 0 <= k < i ==> physics_grid(#[trigger] grids@[k], k, size_total, sfi, r),
            decreases count - i,
        {
            proof {
                lemma_pow_increases(r as nat, i as nat, (count - 1) as nat);
                assert(sfi * p <= sfi * pow(r, (count - 1) as nat)) by (nonlinear_arith)
                    requires
                        sfi > 0,
                        p <= pow(r, (count - 1) as nat),
                ;
                vstd::arithmetic::power::lemma_pow_positive(r, i as nat);
                assert(sfi * p >= 1) by (nonlinear_arith)
                    requires
                        sfi > 0,
                        p >= 1,
                ;
            }
            let sf = size_field_initial * p;
            proof {
                crate::map::matrix_simple::lemma_cover_fits(size_total.width as int, sf as int);
                crate::map::matrix_simple::lemma_cover_fits(size_total.height as int, sf as int);
            }
            let w = size_total.width / sf + if size_total.width % sf >= 1 { 1 } else { 0 };
            let h = size_total.height / sf + if size_total.height % sf >= 1 { 1 } else { 0 };
            grids.push(PhysicsGrid { index: i as usize, size_field: sf, size: Size2D { width: w, height: h } });
            i = i + 1;
            if i < count {
                let ghost e = i as nat;
                proof {
                    reveal(pow);
                    assert(pow(r, e) == r * pow(r, (e - 1) as nat));
                    lemma_pow_increases(r as nat, e, (count - 1) as nat);
                    vstd::arithmetic::power::lemma_pow_positive(r, e);
                    assert(pow(r, e) <= i32::MAX) by (nonlinear_arith)
                        requires
                            sfi >= 1,
                            pow(r, e) >= 1,
                            sfi * pow(r, (count - 1) as nat) <= i32::MAX,
                            pow(r, e) <= pow(r, (count - 1) as nat),
                    {
                        assert(pow(r, e) <= sfi * pow(r, (count - 1) as nat)) by (nonlinear_arith)
                            requires
                                sfi >= 1,
                                pow(r, e) <= pow(r, (count - 1) as nat),
                                pow(r, e) >= 1,
                        ;
                    }
                    assert(p * size_field_ratio == r * pow(r, (e - 1) as nat)) by (nonlinear_arith)
                        requires
                            p == pow(r, (e - 1) as nat),
                            r == size_field_ratio,
                    ;
                }
                p = p * size_field_ratio;
            }
        }
        MapPhysics { grids, size_field_initial, size_field_ratio, count }
    }

    /// The grid of an entity whose diameter, rounded down, is `diameter`:
    /// the first grid whose cells are wider than the entity, or the last
    /// grid when none is.
    pub fn grid_for(&self, diameter: i64) -> (i: usize)
        requires
            self.grids@.len() > 0,
        ensures
            i < self.grids@.len(),
            forall|j: int| 0 <= j < i ==> (#[trigger] self.grids@[j]).size_field <= diameter,
            i < self.grids@.len() - 1 ==> diameter < self.grids@[i as int].size_field,
    {
        let n = self.grids.len();
        let mut i: usize = 0;
        while i < n
            invariant
                i <= n,
                n == self.grids@.len(),
                forall|j: int| 0 <= j < i ==> (#[trigger] self.grids@[j]).size_field <= diameter,
            decreases n - i,
        {
            if diameter < self.grids[i].size_field as i64 {
                return i;
            }
            i = i + 1;
        }
        n - 1
    }

    pub fn size_field_initial(&self) -> (v: i32)
        ensures
            v == self.size_field_initial,
    {
        self.size_field_initial
    }

    pub fn size_field_ratio(&self) -> (v: i32)
        ensures
            v == self.size_field_ratio,
    {
        self.size_field_ratio
    }

    pub fn count(&self) -> (v: i32)
        ensures
            v == self.count,
    {
        self.count
    }
}

} // verus!
