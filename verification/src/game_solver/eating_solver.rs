use vstd::prelude::*;
use crate::entity::{EntityAction, RATIO_MASS};
use crate::geometry::Point2D;
use crate::map::matrix_simple::{MatrixSimple, MatrixSimpleCellContent, slots_in_order};
use crate::game::Game;
use super::cache_entity::lemma_only_buffers_keeps_wf;

verus! {

/// Who eats whom. The two comparisons on real numbers (the masses with a
/// margin, and the distance against the radii) are made beside it and
/// handed in as booleans.
pub struct EatingSolver;

/// Entity `e` may eat entity `o`: an entity of the same player only when
/// `o` can merge, neither waits to become mergeable, and `e` is heavier or,
/// at equal mass, comes later; an entity of another player when `o` is not
/// invincible and `e` is heavier by the margin (`heavier`).
pub open spec fn may_eat(g: Game, e: int, o: int, heavier: bool) -> bool {
    let ce = g.entities.core@[e];
    let co = g.entities.core@[o];
    let me = g.entities.mass@[e];
    let mo = g.entities.mass@[o];
    if ce.player == co.player {
        &&& co.characteristics.mergeable
        &&& g.entities.timer@[e].mergeable is None
        &&& g.entities.timer@[o].mergeable is None
        &&& (me > mo || (me == mo && ce.index.main > co.index.main))
    } else {
        !co.characteristics.invincible && heavier
    }
}

/// The records of a cell in the slots `slots`, in that order, except those
/// of entity `e`: each as the recorded entity and the position it was
/// recorded at.
pub open spec fn records_except(c: Map<usize, MatrixSimpleCellContent>, slots: Seq<usize>, e: usize) -> Seq<(usize, Point2D)>
    decreases slots.len(),
{
    if slots.len() == 0 {
        Seq::empty()
    } else {
        let before = records_except(c, slots.drop_last(), e);
        let r = c[slots.last()];
        if r.entity == e {
            before
        } else {
            before.push((r.entity, r.position))
        }
    }
}

/// The records of the cells `cells`, cell after cell and slot after slot,
/// except those of entity `e`.
pub open spec fn near_records(m: MatrixSimple, cells: Seq<(usize, usize)>, e: usize) -> Seq<(usize, Point2D)>
    decreases cells.len(),
{
    if cells.len() == 0 {
        Seq::empty()
    } else {
        let c = cells.last();
        let cell = m.cell(c.0 as int, c.1 as int);
        near_records(m, cells.drop_last(), e) + records_except(cell, slots_in_order(cell), e)
    }
}

/// An entity heavier than ten thousand units of displayed mass looks at
/// every cell of its scan; a lighter one only at the cells its square
/// meets.
pub open spec fn scans_wide(mass: i64) -> bool {
    mass > RATIO_MASS * 10_000
}

/// No entity may eat itself.
pub proof fn lemma_never_eats_itself(g: Game, e: int, heavier: bool)
    ensures
        !may_eat(g, e, e, heavier),
{
}

/// Between two entities of the same player, at most one may eat the other.
pub proof fn lemma_same_player_eats_one_way(g: Game, e: int, o: int, h1: bool, h2: bool)
    requires
        g.entities.core@[e].player == g.entities.core@[o].player,
    ensures
        !(may_eat(g, e, o, h1) && may_eat(g, o, e, h2)),
{
}

/// Of two entities, at most one may eat the other: within one player by
/// mass and index, and across players because the margin of mass that the
/// caller measures on real numbers can only favour the heavier one
/// (`heavier_eo` only when `e` outweighs `o`, `heavier_oe` only when `o`
/// outweighs `e`).
pub proof fn lemma_eats_one_way(g: Game, e: int, o: int, heavier_eo: bool, heavier_oe: bool)
    requires
        heavier_eo ==> g.entities.mass@[e] > g.entities.mass@[o],
        heavier_oe ==> g.entities.mass@[o] > g.entities.mass@[e],
    ensures
        !(may_eat(g, e, o, heavier_eo) && may_eat(g, o, e, heavier_oe)),
{
}

/// An entity never eats another of its player while either waits to
/// become mergeable.
pub proof fn lemma_no_eating_while_waiting_to_merge(g: Game, e: int, o: int, heavier: bool)
    requires
        g.entities.core@[e].player == g.entities.core@[o].player,
        g.entities.timer@[e].mergeable is Some || g.entities.timer@[o].mergeable is Some,
    ensures
        !may_eat(g, e, o, heavier),
{
}

/// An entity never eats another of its player that cannot merge.
pub proof fn lemma_unmergeable_cells_not_eaten_by_their_player(g: Game, e: int, o: int, heavier: bool)
    requires
        g.entities.core@[e].player == g.entities.core@[o].player,
        !g.entities.core@[o].characteristics.mergeable,
    ensures
        !may_eat(g, e, o, heavier),
{
}

/// Of two cells of one player that can both merge, the heavier may eat the
/// lighter, whatever the margin measured beside it.
pub proof fn lemma_heavier_own_cell_eats(g: Game, e: int, o: int, heavier: bool)
    requires
        g.entities.core@[e].player == g.entities.core@[o].player,
        g.entities.timer@[e].mergeable is None,
        g.entities.timer@[o].mergeable is None,
        g.entities.core@[o].characteristics.mergeable,
        g.entities.mass@[e] > g.entities.mass@[o],
    ensures
        may_eat(g, e, o, heavier),
{
}

/// Between two players, an entity may eat another exactly when the other
/// is not invincible and the margin of mass measured beside it favours the
/// eater.
pub proof fn lemma_eating_across_players(g: Game, e: int, o: int, heavier: bool)
    requires
        g.entities.core@[e].player != g.entities.core@[o].player,
    ensures
        may_eat(g, e, o, heavier) == (!g.entities.core@[o].characteristics.invincible && heavier),
{
}

impl EatingSolver {
    /// Entity `other` is near entity `entity`: when `entity` may eat it and
    /// it lies within reach (`within_reach`), `other` learns in its first
    /// buffer that `entity` killed it; otherwise nothing changes.
    pub fn manage_kill(game: &mut Game, entity: usize, other: usize, heavier: bool, within_reach: bool)
        requires
            old(game).wf(),
            entity < old(game).entities.core@.len(),
            other < old(game).entities.core@.len(),
        ensures
            final(game).wf(),
            may_eat(*old(game), entity as int, other as int, heavier) && within_reach ==> {
                &&& *final(game) == (Game {
                    entities: crate::entity::entities::Entities { buffer: final(game).entities.buffer, ..old(game).entities },
                    ..*old(game)
                })
                &&& final(game).entities.buffer@ == old(game).entities.buffer@.update(
                    other as int,
                    final(game).entities.buffer@[other as int],
                )
                &&& final(game).entities.buffer@[other as int]@ == old(game).entities.buffer@[other as int]@.push(
                    EntityAction::Killed(entity),
                )
            },
            !(may_eat(*old(game), entity as int, other as int, heavier) && within_reach) ==> *final(game) == *old(game),
    {
        let ghost g0 = *game;
        let same_player = game.entities.core[entity].player == game.entities.core[other].player;
        let mut killed = false;
        if same_player {
            if !game.entities.core[other].characteristics.mergeable {
                return;
            }
            if game.entities.timer[entity].mergeable.is_none() && game.entities.timer[other].mergeable.is_none() {
                let me = game.entities.mass[entity];
                let mo = game.entities.mass[other];
                if me > mo {
                    killed = true;
                } else if me == mo {
                    if game.entities.core[entity].index.main > game.entities.core[other].index.main {
                        killed = true;
                    }
                }
            }
        } else {
            if game.entities.core[other].characteristics.invincible {
                return;
            }
            if heavier {
                killed = true;
            }
        }
        if killed && within_reach {
            game.entities.send_buffer(other, EntityAction::Killed(entity));
            proof {
                assert(game.entities.buffer@ =~= g0.entities.buffer@.update(other as int, game.entities.buffer@[other as int]));
                lemma_only_buffers_keeps_wf(*game, g0);
            }
        }
    }

    /// The entities that entity `entity`, of radius `radius` in whole
    /// units, may meet: the records of the cells scanned around it (every
    /// cell of the scan for a heavy entity, the cells its square meets for
    /// a light one), in scan order, except its own; each with the position
    /// it was recorded at. Distances are measured beside it.
    pub fn candidates(game: &Game, entity: usize, radius: i32) -> (r: Vec<(usize, Point2D)>)
        requires
            game.wf(),
            entity < game.entities.core@.len(),
            0 <= radius,
            2 * radius <= i32::MAX,
            game.entities.position@[entity as int].x + radius <= i32::MAX,
            game.entities.position@[entity as int].y + radius <= i32::MAX,
        ensures
            r@ == near_records(
                game.map.matrix_simple,
                game.map.matrix_simple.cells_around_spec(
                    &game.entities,
                    entity,
                    radius,
                    scans_wide(game.entities.mass@[entity as int]),
                ),
                entity,
            ),
    {
        let m = &game.map.matrix_simple;
        proof {
            assert(m.consistent(game.entities.index_matrix_simple@));
            assert(m.in_grid(
                game.entities.index_matrix_simple@[entity as int].x as int,
                game.entities.index_matrix_simple@[entity as int].y as int,
            ));
            assert(game.entities.position@[entity as int].x >= 0);
        }
        let wide = game.entities.mass[entity] > RATIO_MASS * 10_000;
        let cells = m.cells_around(&game.entities, entity, radius, wide);
        let mut out: Vec<(usize, Point2D)> = Vec::new();
        let mut i: usize = 0;
        proof {
            assert(cells@.take(0) =~= Seq::<(usize, usize)>::empty());
        }
        while i < cells.len()
            invariant
                game.wf(),
                m == &game.map.matrix_simple,
                i <= cells@.len(),
                forall|k: int| 0 <= k < cells@.len() ==> m.in_grid((#[trigger] cells@[k]).0 as int, cells@[k].1 as int),
                out@ == near_records(*m, cells@.take(i as int), entity),
            decreases cells.len() - i,
        {
            let (x, y) = cells[i];
            proof {
                assert(m.in_grid(cells@[i as int].0 as int, cells@[i as int].1 as int));
            }
            let keys = m.cell_keys(x, y);
            let ghost cell = m.cell(x as int, y as int);
            let ghost base = out@;
            let mut t: usize = 0;
            proof {
                assert(keys@.take(0) =~= Seq::<usize>::empty());
                assert(out@ =~= base + records_except(cell, keys@.take(0), entity));
            }
            while t < keys.len()
                invariant
                    game.wf(),
                    m == &game.map.matrix_simple,
                    m.in_grid(x as int, y as int),
                    cell == m.cell(x as int, y as int),
                    t <= keys@.len(),
                    forall|k: usize| cell.contains_key(k) <==> keys@.contains(k),
                    out@ == base + records_except(cell, keys@.take(t as int), entity),
                decreases keys.len() - t,
            {
                let z = keys[t];
                proof {
                    assert(keys@.contains(z));
                    assert(keys@.take(t as int + 1).drop_last() =~= keys@.take(t as int));
                }
                let c = m.cell_content(x, y, z);
                if c.entity != entity {
                    out.push((c.entity, c.position));
                }
                proof {
                    assert(out@ =~= base + records_except(cell, keys@.take(t as int + 1), entity));
                }
                t = t + 1;
            }
            proof {
                assert(keys@.take(keys@.len() as int) =~= keys@);
                assert(cells@.take(i as int + 1).drop_last() =~= cells@.take(i as int));
                assert(cells@.take(i as int + 1).last() == (x, y));
            }
            i = i + 1;
        }
        proof {
            assert(cells@.take(cells@.len() as int) =~= cells@);
        }
        out
    }
}

} // verus!
