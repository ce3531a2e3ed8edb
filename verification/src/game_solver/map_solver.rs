use vstd::prelude::*;
use crate::entity::{EntityColor, EntityInfo, max_int, min_int, same_characteristics};
use crate::entity::entities::clamp_spec;
use crate::geometry::{Point2D, Size2D};
use crate::game::Game;
use crate::entity::entities::Entities;
use crate::game::settings::{AutoSpawnEntityColor, AutoSpawnEntityTexture, AutoSpawnMass, AutoSpawnSettings, SpawnPosition};
use crate::random::{random_in, random_index};
use crate::entity::flags::{EntityFlags, is_flag, MASS_CHANGED, MATRIX_SIMPLE_TO_CHANGE, MOVED};
use crate::map::matrix_simple::lemma_position_update_keeps_consistent;
use crate::game::lemma_map_covers;

verus! {

/// Spawns entities, keeps the grid in step with the entities and frees
/// spare room in the grid, once per update.
pub struct MapSolver;

/// The random choices of one spawn; each is read only by the variant of the
/// settings that draws it.
#[derive(Clone, Copy, Debug)]
pub struct SpawnDraw {
    pub position: Point2D,
    pub mass: i64,
    pub mass_index: usize,
    pub color_index: usize,
    pub texture_index: usize,
}

/// Random ranges of the settings hold a value and random lists are not
/// empty.
pub open spec fn spawn_drawable(s: AutoSpawnSettings) -> bool {
    &&& s.position matches SpawnPosition::RandomRange(rx, ry) ==> rx.start < rx.end && ry.start < ry.end
    &&& s.mass matches AutoSpawnMass::Random(v) ==> v@.len() > 0
    &&& s.mass matches AutoSpawnMass::RandomRange(r) ==> r.start <= r.end
    &&& s.color matches AutoSpawnEntityColor::Random(v) ==> v@.len() > 0
    &&& s.texture matches AutoSpawnEntityTexture::Random(v) ==> v@.len() > 0
}

/// The indexes of the draw fall within the random lists of the settings.
pub open spec fn draw_in_lists(s: AutoSpawnSettings, d: SpawnDraw) -> bool {
    &&& s.mass matches AutoSpawnMass::Random(v) ==> d.mass_index < v@.len()
    &&& s.color matches AutoSpawnEntityColor::Random(v) ==> d.color_index < v@.len()
    &&& s.texture matches AutoSpawnEntityTexture::Random(v) ==> d.texture_index < v@.len()
}

/// A draw that the settings can make on a map whose largest coordinates
/// are `max`.
pub open spec fn draw_possible(s: AutoSpawnSettings, max: Size2D, d: SpawnDraw) -> bool {
    &&& draw_in_lists(s, d)
    &&& s.position is Random ==> 0 <= d.position.x < max.width && 0 <= d.position.y < max.height
    &&& s.position matches SpawnPosition::RandomRange(rx, ry) ==> rx.start <= d.position.x < rx.end && ry.start
        <= d.position.y < ry.end
    &&& s.mass matches AutoSpawnMass::RandomRange(r) ==> r.start <= d.mass <= r.end
}

/// Where the spawn goes.
pub open spec fn spawn_position(s: AutoSpawnSettings, d: SpawnDraw) -> Point2D {
    match s.position {
        SpawnPosition::Exact(x, y) => Point2D { x, y },
        _ => d.position,
    }
}

/// The mass of the spawn: the chosen mass raised to the minimum, then
/// lowered to the maximum of the characteristics.
pub open spec fn spawn_mass(s: AutoSpawnSettings, d: SpawnDraw) -> int {
    let m = match s.mass {
        AutoSpawnMass::Exact(m) => m as int,
        AutoSpawnMass::Random(v) => v@[d.mass_index as int] as int,
        AutoSpawnMass::RandomRange(_) => d.mass as int,
    };
    min_int(max_int(m, s.characteristics.mass_min as int), s.characteristics.mass_max as int)
}

/// The colour of the spawn.
pub open spec fn spawn_color(s: AutoSpawnSettings, d: SpawnDraw) -> EntityColor {
    match s.color {
        AutoSpawnEntityColor::Custom(c) => c,
        AutoSpawnEntityColor::Random(v) => v@[d.color_index as int],
    }
}

/// The texture of the spawn.
pub open spec fn spawn_texture(s: AutoSpawnSettings, d: SpawnDraw) -> usize {
    match s.texture {
        AutoSpawnEntityTexture::CustomIndex(i) => i,
        AutoSpawnEntityTexture::Random(v) => v@[d.texture_index as int],
    }
}

/// How many of `amount` spawns take place when the game starts with `n`
/// entities: a spawn takes place while there are at most `cap` entities.
pub open spec fn spawn_count(n: int, amount: int, cap: int) -> int {
    if n > cap {
        0
    } else {
        min_int(amount, cap - n + 1)
    }
}

/// Entity `k` is what the draw `d` spawns on a map whose largest
/// coordinates are `max`, once placed on the map and given its mass bounds.
pub open spec fn spawned_by(e: Entities, k: int, s: AutoSpawnSettings, max: Size2D, d: SpawnDraw) -> bool {
    &&& e.core@[k].player == 0
    &&& same_characteristics(e.core@[k].characteristics, s.characteristics)
    &&& e.core@[k].color == spawn_color(s, d)
    &&& e.core@[k].index.texture == spawn_texture(s, d)
    &&& e.timer@[k] == s.timer
    &&& e.mass@[k] == clamp_spec(spawn_mass(s, d), s.characteristics.mass_min as int, s.characteristics.mass_max as int)
    &&& e.position@[k].x == clamp_spec(spawn_position(s, d).x as int, 0, max.width as int)
    &&& e.position@[k].y == clamp_spec(spawn_position(s, d).y as int, 0, max.height as int)
}

/// Entity `k` is what some possible draw spawns.
pub open spec fn spawned(e: Entities, k: int, s: AutoSpawnSettings, max: Size2D) -> bool {
    exists|d: SpawnDraw| draw_possible(s, max, d) && #[trigger] spawned_by(e, k, s, max, d)
}

/// The grid index of entity `j` names the cell under its position.
pub open spec fn in_place(g: Game, j: int) -> bool {
    let ix = g.entities.index_matrix_simple@[j];
    g.map.matrix_simple.field_of(g.entities.position@[j]) == (ix.x as int, ix.y as int)
}

/// Entity `k` waits for nothing from the grid, and its record names the
/// cell under it.
pub open spec fn settled(g: Game, k: int) -> bool {
    !awaits_grid(g.entities.flags@[k]) && in_place(g, k)
}

/// The entity moved or changed mass, or its record waits to move.
pub open spec fn awaits_grid(f: EntityFlags) -> bool {
    f.has(MOVED) || f.has(MASS_CHANGED) || f.has(MATRIX_SIMPLE_TO_CHANGE)
}

/// The flags of the grid's bookkeeping are cleared; the others stay.
pub open spec fn grid_flags_cleared(f: EntityFlags, f0: EntityFlags) -> bool {
    forall|b: u32| is_flag(b) ==> #[trigger] f.has(b) == (f0.has(b) && b != MOVED && b != MASS_CHANGED && b
        != MATRIX_SIMPLE_TO_CHANGE)
}

/// The flags after the first pass: moves and mass changes are taken in,
/// and the record is marked to move when the entity left its cell.
pub open spec fn first_pass_flags(f: EntityFlags, f0: EntityFlags, left_cell: bool) -> bool {
    forall|b: u32| is_flag(b) ==> #[trigger] f.has(b) == if b == MOVED || b == MASS_CHANGED {
        false
    } else if b == MATRIX_SIMPLE_TO_CHANGE {
        f0.has(b) || ((f0.has(MOVED) || f0.has(MASS_CHANGED)) && left_cell)
    } else {
        f0.has(b)
    }
}

/// Only the flags and the grid of `g` differ from `g0`.
pub open spec fn same_but_grid(g: Game, g0: Game) -> bool {
    &&& g.entities.core == g0.entities.core
    &&& g.entities.position == g0.entities.position
    &&& g.entities.mass == g0.entities.mass
    &&& g.entities.direction == g0.entities.direction
    &&& g.entities.timer == g0.entities.timer
    &&& g.entities.lifetime == g0.entities.lifetime
    &&& g.entities.special == g0.entities.special
    &&& g.entities.main_ptrs == g0.entities.main_ptrs
    &&& g.entities.flags@.len() == g0.entities.flags@.len()
    &&& g.entities.index_matrix_simple@.len() == g0.entities.index_matrix_simple@.len()
    &&& g.map.size == g0.map.size
    &&& g.map.size_field == g0.map.size_field
    &&& g.map.matrix_simple.size == g0.map.matrix_simple.size
    &&& g.map.matrix_simple.size_field == g0.map.matrix_simple.size_field
    &&& g.players == g0.players
    &&& g.settings == g0.settings
    &&& g.state == g0.state
    &&& g.id_generator == g0.id_generator
    &&& g.buffer_add_entity == g0.buffer_add_entity
    &&& g.buffer_kill_entity == g0.buffer_kill_entity
    &&& g.entities_characteristics == g0.entities_characteristics
}

impl MapSolver {
    /// Draws at random what one spawn needs, on a map whose largest
    /// coordinates are `max`.
    pub fn draw(s: &AutoSpawnSettings, max: Size2D) -> (d: SpawnDraw)
        requires
            spawn_drawable(*s),
            max.width > 0,
            max.height > 0,
        ensures
            draw_possible(*s, max, d),
    {
        let mut d = SpawnDraw { position: Point2D { x: 0, y: 0 }, mass: 0, mass_index: 0, color_index: 0, texture_index: 0 };
        match &s.position {
            SpawnPosition::Exact(_, _) => {},
            SpawnPosition::Random => {
                let x = random_in(0, max.width as i64 - 1);
                let y = random_in(0, max.height as i64 - 1);
                d.position = Point2D { x: x as i32, y: y as i32 };
            },
            SpawnPosition::RandomRange(rx, ry) => {
                let x = random_in(rx.start as i64, rx.end as i64 - 1);
                let y = random_in(ry.start as i64, ry.end as i64 - 1);
                d.position = Point2D { x: x as i32, y: y as i32 };
            },
        }
        match &s.mass {
            AutoSpawnMass::Exact(_) => {},
            AutoSpawnMass::Random(v) => {
                d.mass_index = random_index(v.len());
            },
            AutoSpawnMass::RandomRange(r) => {
                d.mass = random_in(r.start, r.end);
            },
        }
        match &s.color {
            AutoSpawnEntityColor::Custom(_) => {},
            AutoSpawnEntityColor::Random(v) => {
                d.color_index = random_index(v.len());
            },
        }
        match &s.texture {
            AutoSpawnEntityTexture::CustomIndex(_) => {},
            AutoSpawnEntityTexture::Random(v) => {
                d.texture_index = random_index(v.len());
            },
        }
        d
    }

    /// The entity that the draw `d` spawns: it belongs to player 0 and has
    /// the timer and characteristics of the settings.
    pub fn spawn_info(s: &AutoSpawnSettings, d: SpawnDraw) -> (info: EntityInfo)
        requires
            draw_in_lists(*s, d),
        ensures
            info.player == 0,
            info.position == spawn_position(*s, d),
            info.mass == spawn_mass(*s, d),
            info.color == spawn_color(*s, d),
            info.texture == spawn_texture(*s, d),
            info.timer == s.timer,
            same_characteristics(info.characteristics, s.characteristics),
    {
        let position = match &s.position {
            SpawnPosition::Exact(x, y) => Point2D { x: *x, y: *y },
            _ => d.position,
        };
        let chosen = match &s.mass {
            AutoSpawnMass::Exact(m) => *m,
            AutoSpawnMass::Random(v) => v[d.mass_index],
            AutoSpawnMass::RandomRange(_) => d.mass,
        };
        let raised = if chosen >= s.characteristics.mass_min { chosen } else { s.characteristics.mass_min };
        let mass = if raised <= s.characteristics.mass_max { raised } else { s.characteristics.mass_max };
        let color = match &s.color {
            AutoSpawnEntityColor::Custom(c) => *c,
            AutoSpawnEntityColor::Random(v) => v[d.color_index],
        };
        let texture = match &s.texture {
            AutoSpawnEntityTexture::CustomIndex(i) => *i,
            AutoSpawnEntityTexture::Random(v) => v[d.texture_index],
        };
        EntityInfo {
            player: 0,
            position,
            mass,
            color,
            texture,
            timer: s.timer,
            characteristics: s.characteristics.duplicate(),
        }
    }
    /// Runs the spawns of the automatic spawner: `amount` times, an entity
    /// drawn from the settings is added while the game holds at most
    /// `max_cells_spawn` entities.
    pub fn auto_spawn(game: &mut Game)
        requires
            old(game).wf(),
            spawn_drawable(old(game).settings.auto_spawn),
            spawn_count(
                old(game).entities.core@.len() as int,
                old(game).settings.auto_spawn.amount as int,
                old(game).settings.max_cells_spawn as int,
            ) > 0 ==> old(game).players@.len() > 0 && old(game).settings.auto_spawn.characteristics.mass_min
                <= old(game).settings.auto_spawn.characteristics.mass_max,
            old(game).entities.core@.len() + old(game).settings.auto_spawn.amount < usize::MAX,
            old(game).entities.main_ptrs@.len() + old(game).settings.auto_spawn.amount < usize::MAX,
            old(game).id_generator.next + old(game).settings.auto_spawn.amount < usize::MAX,
        ensures
            final(game).wf(),
            final(game).settings == old(game).settings,
            final(game).state == old(game).state,
            final(game).map.size == old(game).map.size,
            final(game).players@.len() == old(game).players@.len(),
            final(game).entities.core@.len() == old(game).entities.core@.len() + spawn_count(
                old(game).entities.core@.len() as int,
                old(game).settings.auto_spawn.amount as int,
                old(game).settings.max_cells_spawn as int,
            ),
            forall|k: int| old(game).entities.core@.len() <= k < final(game).entities.core@.len() ==> #[trigger] spawned(
                final(game).entities,
                k,
                old(game).settings.auto_spawn,
                old(game).map.max_spec(),
            ),
            forall|i: int| 0 <= i < old(game).entities.core@.len() ==> #[trigger] final(game).entities.core@[i]
                == old(game).entities.core@[i],
            forall|i: int| 0 <= i < old(game).entities.core@.len() ==> #[trigger] final(game).entities.position@[i]
                == old(game).entities.position@[i],
            forall|i: int| 0 <= i < old(game).entities.core@.len() ==> #[trigger] final(game).entities.mass@[i]
                == old(game).entities.mass@[i],
            forall|i: int| 0 <= i < old(game).entities.core@.len() ==> #[trigger] final(game).entities.timer@[i]
                == old(game).entities.timer@[i],
            forall|i: int| 0 <= i < old(game).entities.core@.len() ==> #[trigger] final(game).entities.flags@[i]
                == old(game).entities.flags@[i],
            forall|i: int| 0 <= i < old(game).entities.core@.len() ==> #[trigger] final(game).entities.index_matrix_simple@[i]
                == old(game).entities.index_matrix_simple@[i],
            forall|k: int| old(game).entities.core@.len() <= k < final(game).entities.core@.len() ==> #[trigger] settled(
                *final(game),
                k,
            ),
    {
        let ghost g0 = *game;
        let ghost n0 = game.entities.core@.len() as int;
        let ghost s = game.settings.auto_spawn;
        let ghost mx = game.map.max_spec();
        let amount = game.settings.auto_spawn.amount;
        let cap = game.settings.max_cells_spawn;
        let max = game.map.max();
        let mut i: usize = 0;
        let ghost mut c: int = 0;
        while i < amount
            invariant
                game.wf(),
                game.settings == g0.settings,
                game.state == g0.state,
                game.map.size == g0.map.size,
                game.map.max_spec() == mx,
                max == mx,
                max.width >= 1,
                max.height >= 1,
                s == g0.settings.auto_spawn,
                amount == s.amount,
                cap == g0.settings.max_cells_spawn,
                game.players@.len() == g0.players@.len(),
                spawn_drawable(s),
                i <= amount,
                c == spawn_count(n0, i as int, cap as int),
                0 <= c <= i,
                game.entities.core@.len() == n0 + c,
                game.entities.main_ptrs@.len() == g0.entities.main_ptrs@.len() + c,
                game.id_generator.next <= g0.id_generator.next + c,
                n0 == g0.entities.core@.len(),
                spawn_count(n0, amount as int, cap as int) > 0 ==> game.players@.len() > 0 && s.characteristics.mass_min
                    <= s.characteristics.mass_max,
                g0.entities.core@.len() + amount < usize::MAX,
                g0.entities.main_ptrs@.len() + amount < usize::MAX,
                g0.id_generator.next + amount < usize::MAX,
                forall|k: int| n0 <= k < game.entities.core@.len() ==> #[trigger] spawned(game.entities, k, s, mx),
                forall|k: int| n0 <= k < game.entities.core@.len() ==> #[trigger] settled(*game, k),
                g0.entities.sizes_ok(),
                forall|j: int| 0 <= j < n0 ==> #[trigger] game.entities.core@[j] == g0.entities.core@[j],
                forall|j: int| 0 <= j < n0 ==> #[trigger] game.entities.position@[j] == g0.entities.position@[j],
                forall|j: int| 0 <= j < n0 ==> #[trigger] game.entities.mass@[j] == g0.entities.mass@[j],
                forall|j: int| 0 <= j < n0 ==> #[trigger] game.entities.timer@[j] == g0.entities.timer@[j],
                forall|j: int| 0 <= j < n0 ==> #[trigger] game.entities.flags@[j] == g0.entities.flags@[j],
                forall|j: int| 0 <= j < n0 ==> #[trigger] game.entities.index_matrix_simple@[j] == g0.entities.index_matrix_simple@[j],
            decreases amount - i,
        {
            if game.entities.len() <= cap {
                let d = Self::draw(&game.settings.auto_spawn, max);
                let info = Self::spawn_info(&game.settings.auto_spawn, d);
                proof {
                    assert(spawn_count(n0, amount as int, cap as int) > 0);
                }
                let ghost before = *game;
                game.new_entity(info);
                proof {
                    let e = game.entities;
                    let k = before.entities.core@.len() as int;
                    assert(spawned_by(e, k, s, mx, d));
                    assert forall|q: int| n0 <= q < e.core@.len() implies #[trigger] spawned(e, q, s, mx) by {
                        if q < k {
                            assert(spawned(before.entities, q, s, mx));
                            let dq = choose|dq: SpawnDraw| draw_possible(s, mx, dq) && #[trigger] spawned_by(before.entities, q, s, mx, dq);
                            assert(spawned_by(e, q, s, mx, dq));
                        }
                    }
                    assert forall|q: int| n0 <= q < e.core@.len() implies #[trigger] settled(*game, q) by {
                        if q < k {
                            assert(settled(before, q));
                            assert(e.flags@[q] == before.entities.flags@[q]);
                            assert(e.index_matrix_simple@[q] == before.entities.index_matrix_simple@[q]);
                            assert(e.position@[q] == before.entities.position@[q]);
                        }
                    }
                    c = c + 1;
                }
            }
            i = i + 1;
        }
    }
    /// Brings the grid in step with the entities. An entity that moved or
    /// changed mass keeps its record when it stays in its cell, the record
    /// taking its new position; when it left its cell, and for every
    /// record that waited to move, the record moves to the cell under the
    /// entity. The flags of this bookkeeping are cleared.
    pub fn update_map(game: &mut Game)
        requires
            old(game).wf(),
        ensures
            final(game).wf(),
            same_but_grid(*final(game), *old(game)),
            forall|j: int| 0 <= j < old(game).entities.core@.len() ==> grid_flags_cleared(
                #[trigger] final(game).entities.flags@[j],
                old(game).entities.flags@[j],
            ),
            forall|j: int| 0 <= j < old(game).entities.core@.len() && awaits_grid(old(game).entities.flags@[j])
                ==> #[trigger] in_place(*final(game), j),
            forall|j: int| 0 <= j < old(game).entities.core@.len() && !awaits_grid(old(game).entities.flags@[j])
                ==> #[trigger] final(game).entities.index_matrix_simple@[j] == old(game).entities.index_matrix_simple@[j],
    {
        let ghost g0 = *game;
        let n = game.entities.len();
        let mut i: usize = 0;
        while i < n
            invariant
                game.wf(),
                same_but_grid(*game, g0),
                g0.wf(),
                n == g0.entities.core@.len(),
                i <= n,
                game.entities.index_matrix_simple == g0.entities.index_matrix_simple,
                forall|j: int| 0 <= j < i ==> first_pass_flags(#[trigger] game.entities.flags@[j], g0.entities.flags@[j], !in_place(g0, j)),
                forall|j: int| i <= j < n ==> #[trigger] game.entities.flags@[j] == g0.entities.flags@[j],
            decreases n - i,
        {
            let f = game.entities.flags[i];
            let ghost gb = *game;
            if f.contains(MOVED) || f.contains(MASS_CHANGED) {
                let mut nf = f;
                proof {
                    assert(game.map.matrix_simple.consistent(game.entities.index_matrix_simple@));
                }
                if game.map.matrix_simple.entity_has_moved(&game.entities, i) {
                    nf.insert(MATRIX_SIMPLE_TO_CHANGE);
                } else {
                    let ghost m0 = game.map.matrix_simple;
                    game.map.matrix_simple.update_entity_position_no_lock(&game.entities, i);
                    proof {
                        lemma_position_update_keeps_consistent(
                            m0,
                            game.map.matrix_simple,
                            game.entities.index_matrix_simple@,
                            i as int,
                            game.entities.position@[i as int],
                        );
                    }
                }
                nf.remove(MOVED);
                nf.remove(MASS_CHANGED);
                game.entities.flags.set(i, nf);
                proof {
                    assert(game.map.matrix_simple.consistent(game.entities.index_matrix_simple@));
                    crate::game::lemma_regrid_keeps_wf(*game, gb);
                }
            }
            proof {
                assert(first_pass_flags(game.entities.flags@[i as int], g0.entities.flags@[i as int], !in_place(g0, i as int)));
            }
            i = i + 1;
        }
        let ghost g1 = *game;
        let mut i: usize = 0;
        while i < n
            invariant
                game.wf(),
                same_but_grid(*game, g0),
                g1.wf(),
                same_but_grid(g1, g0),
                n == g0.entities.core@.len(),
                i <= n,
                forall|j: int| 0 <= j < i ==> !(#[trigger] game.entities.flags@[j]).has(MATRIX_SIMPLE_TO_CHANGE),
                forall|j: int, b: u32| 0 <= j < i && is_flag(b) && b != MATRIX_SIMPLE_TO_CHANGE ==>
                    (#[trigger] game.entities.flags@[j].has(b) == g1.entities.flags@[j].has(b)),
                forall|j: int| i <= j < n ==> #[trigger] game.entities.flags@[j] == g1.entities.flags@[j],
                forall|j: int| 0 <= j < i && g1.entities.flags@[j].has(MATRIX_SIMPLE_TO_CHANGE) ==> #[trigger] in_place(*game, j),
                forall|j: int| 0 <= j < n && !(j < i && g1.entities.flags@[j].has(MATRIX_SIMPLE_TO_CHANGE))
                    ==> #[trigger] game.entities.index_matrix_simple@[j] == g1.entities.index_matrix_simple@[j],
            decreases n - i,
        {
            let f = game.entities.flags[i];
            let ghost before = *game;
            if f.contains(MATRIX_SIMPLE_TO_CHANGE) {
                let mut nf = f;
                nf.remove(MATRIX_SIMPLE_TO_CHANGE);
                game.entities.flags.set(i, nf);
                proof {
                    let p = game.entities.position@[i as int];
                    lemma_map_covers(game.map, p.x as int, p.y as int);
                    assert(p == crate::geometry::Point2D { x: p.x as i32, y: p.y as i32 });
                }
                game.map.matrix_simple.update_entity_multithread(&mut game.entities, i);
            }
            proof {
                assert forall|j: int| 0 <= j < i + 1 && g1.entities.flags@[j].has(MATRIX_SIMPLE_TO_CHANGE) implies
                    #[trigger] in_place(*game, j) by {
                    if j < i {
                        assert(in_place(before, j));
                        assert(game.entities.index_matrix_simple@[j] == before.entities.index_matrix_simple@[j]);
                    }
                }
            }
            i = i + 1;
        }
        proof {
            assert forall|j: int| 0 <= j < n implies grid_flags_cleared(#[trigger] game.entities.flags@[j], g0.entities.flags@[j]) by {
                assert(first_pass_flags(g1.entities.flags@[j], g0.entities.flags@[j], !in_place(g0, j)));
                assert forall|b: u32| is_flag(b) implies #[trigger] game.entities.flags@[j].has(b) == (g0.entities.flags@[j].has(b)
                    && b != MOVED && b != MASS_CHANGED && b != MATRIX_SIMPLE_TO_CHANGE) by {
                    if b != MATRIX_SIMPLE_TO_CHANGE {
                        assert(game.entities.flags@[j].has(b) == g1.entities.flags@[j].has(b));
                        assert(g1.entities.flags@[j].has(b) == if b == MOVED || b == MASS_CHANGED { false } else { g0.entities.flags@[j].has(b) });
                    }
                }
            }
            assert forall|j: int| 0 <= j < n && awaits_grid(g0.entities.flags@[j]) implies #[trigger] in_place(*game, j) by {
                assert(first_pass_flags(g1.entities.flags@[j], g0.entities.flags@[j], !in_place(g0, j)));
                assert(g1.entities.flags@[j].has(MATRIX_SIMPLE_TO_CHANGE) == (g0.entities.flags@[j].has(MATRIX_SIMPLE_TO_CHANGE)
                    || ((g0.entities.flags@[j].has(MOVED) || g0.entities.flags@[j].has(MASS_CHANGED)) && !in_place(g0, j))));
                if !g1.entities.flags@[j].has(MATRIX_SIMPLE_TO_CHANGE) {
                    assert(game.entities.index_matrix_simple@[j] == g1.entities.index_matrix_simple@[j]);
                }
            }
            assert forall|j: int| 0 <= j < n && !awaits_grid(g0.entities.flags@[j]) implies
                #[trigger] game.entities.index_matrix_simple@[j] == g0.entities.index_matrix_simple@[j] by {
                assert(first_pass_flags(g1.entities.flags@[j], g0.entities.flags@[j], !in_place(g0, j)));
                assert(!g1.entities.flags@[j].has(MATRIX_SIMPLE_TO_CHANGE));
            }
        }
    }
    /// Frees the spare room of a hundred cells picked at random; what the
    /// grid records stays.
    pub fn shrink_map(game: &mut Game)
        requires
            old(game).wf(),
        ensures
            final(game).wf(),
            same_but_grid(*final(game), *old(game)),
            final(game).entities == old(game).entities,
            *final(game) == (Game {
                map: crate::map::GameMap { matrix_simple: final(game).map.matrix_simple, ..old(game).map },
                ..*old(game)
            }),
            forall|x: int, y: int| old(game).map.matrix_simple.in_grid(x, y) ==> #[trigger] final(game).map.matrix_simple.cell(x, y)
                == old(game).map.matrix_simple.cell(x, y),
    {
        let ghost g0 = *game;
        let width = game.map.matrix_simple.size.width as usize;
        let height = game.map.matrix_simple.size.height as usize;
        let mut k: usize = 0;
        while k < 100
            invariant
                game.wf(),
                same_but_grid(*game, g0),
                game.entities == g0.entities,
                *game == (Game {
                    map: crate::map::GameMap { matrix_simple: game.map.matrix_simple, ..g0.map },
                    ..g0
                }),
                g0.wf(),
                width == g0.map.matrix_simple.size.width,
                height == g0.map.matrix_simple.size.height,
                forall|x: int, y: int| g0.map.matrix_simple.in_grid(x, y) ==> #[trigger] game.map.matrix_simple.cell(x, y)
                    == g0.map.matrix_simple.cell(x, y),
            decreases 100 - k,
        {
            let x = random_index(width);
            let y = random_index(height);
            game.map.matrix_simple.shrink_cell(x, y);
            k = k + 1;
        }
    }

    /// One update of the map: the automatic spawns, then the grid brought in
    /// step with the entities, then spare room freed.
    pub fn solve(game: &mut Game)
        requires
            old(game).wf(),
            spawn_drawable(old(game).settings.auto_spawn),
            spawn_count(
                old(game).entities.core@.len() as int,
                old(game).settings.auto_spawn.amount as int,
                old(game).settings.max_cells_spawn as int,
            ) > 0 ==> old(game).players@.len() > 0 && old(game).settings.auto_spawn.characteristics.mass_min
                <= old(game).settings.auto_spawn.characteristics.mass_max,
            old(game).entities.core@.len() + old(game).settings.auto_spawn.amount < usize::MAX,
            old(game).entities.main_ptrs@.len() + old(game).settings.auto_spawn.amount < usize::MAX,
            old(game).id_generator.next + old(game).settings.auto_spawn.amount < usize::MAX,
        ensures
            final(game).wf(),
            final(game).settings == old(game).settings,
            final(game).map.size == old(game).map.size,
            final(game).players@.len() == old(game).players@.len(),
            final(game).entities.core@.len() == old(game).entities.core@.len() + spawn_count(
                old(game).entities.core@.len() as int,
                old(game).settings.auto_spawn.amount as int,
                old(game).settings.max_cells_spawn as int,
            ),
            forall|k: int| old(game).entities.core@.len() <= k < final(game).entities.core@.len() ==> #[trigger] spawned(
                final(game).entities,
                k,
                old(game).settings.auto_spawn,
                old(game).map.max_spec(),
            ),
            forall|i: int| 0 <= i < old(game).entities.core@.len() ==> #[trigger] final(game).entities.core@[i]
                == old(game).entities.core@[i],
            forall|i: int| 0 <= i < old(game).entities.core@.len() ==> #[trigger] final(game).entities.position@[i]
                == old(game).entities.position@[i],
            forall|i: int| 0 <= i < old(game).entities.core@.len() ==> #[trigger] final(game).entities.mass@[i]
                == old(game).entities.mass@[i],
            forall|j: int| 0 <= j < old(game).entities.core@.len() ==> grid_flags_cleared(
                #[trigger] final(game).entities.flags@[j],
                old(game).entities.flags@[j],
            ),
            forall|j: int| 0 <= j < final(game).entities.core@.len() ==> !(#[trigger] final(game).entities.flags@[j]).has(MOVED),
            forall|j: int| 0 <= j < old(game).entities.core@.len() && awaits_grid(old(game).entities.flags@[j])
                ==> #[trigger] in_place(*final(game), j),
            forall|j: int| 0 <= j < final(game).entities.core@.len() ==> !(#[trigger] final(game).entities.flags@[j]).has(
                MASS_CHANGED,
            ) && !final(game).entities.flags@[j].has(MATRIX_SIMPLE_TO_CHANGE),
            forall|k: int| old(game).entities.core@.len() <= k < final(game).entities.core@.len() ==> #[trigger] in_place(
                *final(game),
                k,
            ),
            forall|j: int| 0 <= j < old(game).entities.core@.len() && in_place(*old(game), j) ==> #[trigger] in_place(
                *final(game),
                j,
            ),
    {
        let ghost g0 = *game;
        Self::auto_spawn(game);
        let ghost g1 = *game;
        Self::update_map(game);
        let ghost g2 = *game;
        Self::shrink_map(game);
        proof {
            assert forall|k: int| g0.entities.core@.len() <= k < game.entities.core@.len() implies #[trigger] spawned(
                game.entities,
                k,
                g0.settings.auto_spawn,
                g0.map.max_spec(),
            ) by {
                assert(spawned(g1.entities, k, g0.settings.auto_spawn, g0.map.max_spec()));
                let d = choose|d: SpawnDraw| draw_possible(g0.settings.auto_spawn, g0.map.max_spec(), d)
                    && #[trigger] spawned_by(g1.entities, k, g0.settings.auto_spawn, g0.map.max_spec(), d);
                assert(spawned_by(game.entities, k, g0.settings.auto_spawn, g0.map.max_spec(), d));
            }
            assert forall|j: int| 0 <= j < g0.entities.core@.len() implies grid_flags_cleared(
                #[trigger] game.entities.flags@[j],
                g0.entities.flags@[j],
            ) by {
                assert(g1.entities.flags@[j] == g0.entities.flags@[j]);
                assert(grid_flags_cleared(g2.entities.flags@[j], g1.entities.flags@[j]));
            }
            assert forall|j: int| 0 <= j < game.entities.core@.len() implies !(#[trigger] game.entities.flags@[j]).has(MOVED) by {
                assert(grid_flags_cleared(g2.entities.flags@[j], g1.entities.flags@[j]));
                assert(g2.entities.flags@[j].has(MOVED) == (g1.entities.flags@[j].has(MOVED) && MOVED != MOVED
                    && MOVED != MASS_CHANGED && MOVED != MATRIX_SIMPLE_TO_CHANGE));
            }
            assert forall|j: int| 0 <= j < g0.entities.core@.len() && awaits_grid(g0.entities.flags@[j]) implies
                #[trigger] in_place(*game, j) by {
                assert(g1.entities.flags@[j] == g0.entities.flags@[j]);
                assert(in_place(g2, j));
            }
            assert forall|j: int| 0 <= j < game.entities.core@.len() implies !(#[trigger] game.entities.flags@[j]).has(
                MASS_CHANGED,
            ) && !game.entities.flags@[j].has(MATRIX_SIMPLE_TO_CHANGE) by {
                assert(grid_flags_cleared(g2.entities.flags@[j], g1.entities.flags@[j]));
                assert(g2.entities.flags@[j].has(MASS_CHANGED) == (g1.entities.flags@[j].has(MASS_CHANGED)
                    && MASS_CHANGED != MOVED && MASS_CHANGED != MASS_CHANGED && MASS_CHANGED != MATRIX_SIMPLE_TO_CHANGE));
                assert(g2.entities.flags@[j].has(MATRIX_SIMPLE_TO_CHANGE) == (g1.entities.flags@[j].has(
                    MATRIX_SIMPLE_TO_CHANGE,
                ) && MATRIX_SIMPLE_TO_CHANGE != MOVED && MATRIX_SIMPLE_TO_CHANGE != MASS_CHANGED
                    && MATRIX_SIMPLE_TO_CHANGE != MATRIX_SIMPLE_TO_CHANGE));
            }
            assert forall|j: int| 0 <= j < g0.entities.core@.len() && in_place(g0, j) implies #[trigger] in_place(*game, j) by {
                assert(g1.entities.flags@[j] == g0.entities.flags@[j]);
                assert(g1.entities.index_matrix_simple@[j] == g0.entities.index_matrix_simple@[j]);
                assert(g1.entities.position@[j] == g0.entities.position@[j]);
                if !awaits_grid(g0.entities.flags@[j]) {
                    assert(g2.entities.index_matrix_simple@[j] == g1.entities.index_matrix_simple@[j]);
                    assert(g2.entities.position@[j] == g1.entities.position@[j]);
                } else {
                    assert(in_place(g2, j));
                }
            }
            assert forall|k: int| g0.entities.core@.len() <= k < game.entities.core@.len() implies #[trigger] in_place(
                *game,
                k,
            ) by {
                assert(settled(g1, k));
                assert(g2.entities.index_matrix_simple@[k] == g1.entities.index_matrix_simple@[k]);
                assert(g2.entities.position@[k] == g1.entities.position@[k]);
            }
        }
    }
}

} // verus!
