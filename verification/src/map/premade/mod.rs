pub mod map_autonomous;
pub mod map_black_hole;
pub mod map_classic;
pub mod map_collisions;
pub mod map_definitive;
pub mod map_example;
pub mod map_exponential_extreme;
pub mod map_gravity;
pub mod map_mona_lisa;
pub mod map_paint;
pub mod map_particles;
pub mod map_trail;

use vstd::prelude::*;
use crate::entity::{
    DistanceRatio, EntityCharacteristics, EntityGravityInfo, EntityInfo, EntityTimer, IntRange, OnDeathEffect,
    RATIO_MASS, ThrowEntityInfo, ThrownEntityCharacteristics, ThrownEntityColor, ThrownEntityTexture,
};
use crate::entity::same_characteristics;
use crate::game::Game;
use crate::game::settings::{AutoSpawnSettings, Settings, ThrownFoodInfo, default_settings};
use crate::game::colors::{default_color, default_color_random, default_color_uniform};
use crate::game::player::{PlayerInfo, PlayerKind};
use crate::geometry::{Point2D, Size2D};
use crate::map::{GameMap, MapInfo, map_size_ok};

verus! {

/// Entity `j` of `g` belongs to `player`, stands at (`x`, `y`) and weighs
/// `mass`.
pub open spec fn placed(g: Game, j: int, player: int, x: int, y: int, mass: int) -> bool {
    &&& g.entities.core@[j].player == player
    &&& g.entities.position@[j].x == x
    &&& g.entities.position@[j].y == y
    &&& g.entities.mass@[j] == mass
}

/// The local player's characteristics on every premade map: a killer
/// that collides, merges and splits on a kill, between ten and a hundred
/// thousand units of mass, with an inertia of two and nothing to throw.
pub open spec fn local_base(c: EntityCharacteristics) -> bool {
    &&& c.killer
    &&& c.collide
    &&& c.mergeable
    &&& c.can_split_on_kill
    &&& c.mass_min == 10 * RATIO_MASS
    &&& c.mass_max == 100_000 * RATIO_MASS
    &&& c.throw_entity is None
    &&& c.inertia == 2
}

/// A piece of food thrown by a premade thrower: neither killer nor
/// colliding, of exactly one unit of mass, throwing nothing.
pub open spec fn premade_food(c: EntityCharacteristics, inertia: int) -> bool {
    &&& !c.killer
    &&& !c.collide
    &&& c.mass_min == RATIO_MASS
    &&& c.mass_max == RATIO_MASS
    &&& c.throw_entity is None
    &&& c.inertia == inertia
}

/// The neutral throwers of the premade maps: killers that split their
/// killer in eight, up to a hundred thousand units, throwing one-unit food
/// for half a unit each from two hundred units on.
pub open spec fn premade_thrower(c: EntityCharacteristics) -> bool {
    &&& c.killer
    &&& c.on_death == Some(OnDeathEffect::Split(8))
    &&& c.mass_min == RATIO_MASS
    &&& c.mass_max == 100_000 * RATIO_MASS
    &&& c.throw_entity matches Some(t) && {
        &&& t.mass_minimum_to_throw == 200 * RATIO_MASS
        &&& t.mass_self_added == -RATIO_MASS / 2
        &&& t.mass_entity_thrown == RATIO_MASS
        &&& t.power == (IntRange::<i32> { start: 500, end: 1_000 })
        &&& t.color matches ThrownEntityColor::Random(v) && v@.len() == 6
        &&& t.characteristics_entity_thrown matches ThrownEntityCharacteristics::Custom(b) && premade_food(*b, 10)
    }
}

/// A copy of a thrower's characteristics is a thrower's too.
proof fn lemma_same_thrower(a: EntityCharacteristics, b: EntityCharacteristics)
    requires
        same_characteristics(a, b),
        premade_thrower(b),
    ensures
        premade_thrower(a),
{
    let t = a.throw_entity.unwrap();
    let u = b.throw_entity.unwrap();
    assert(crate::entity::same_throw(t, u));
    assert(crate::entity::same_thrown_characteristics(t.characteristics_entity_thrown, u.characteristics_entity_thrown));
    match (t.characteristics_entity_thrown, u.characteristics_entity_thrown) {
        (ThrownEntityCharacteristics::Custom(c), ThrownEntityCharacteristics::Custom(d)) => {
            assert(same_characteristics(*c, *d));
        },
        _ => {},
    }
}

/// The black hole: a killer source of gravity between a hundred and ten
/// million units that splits its killer in eight and throws one-unit food
/// for one unit each from a thousand units on.
pub open spec fn black_hole_source(c: EntityCharacteristics) -> bool {
    &&& c.killer
    &&& !c.invincible
    &&& c.gravity is Some
    &&& c.on_death == Some(OnDeathEffect::Split(8))
    &&& c.mass_min == 100 * RATIO_MASS
    &&& c.mass_max == 10_000_000 * RATIO_MASS
    &&& c.throw_entity matches Some(t) && {
        &&& t.mass_minimum_to_throw == 1_000 * RATIO_MASS
        &&& t.mass_self_added == -RATIO_MASS
        &&& t.mass_entity_thrown == RATIO_MASS
        &&& t.power == (IntRange::<i32> { start: 10_000, end: 20_000 })
        &&& t.color matches ThrownEntityColor::Random(v) && v@.len() == 6
        &&& t.characteristics_entity_thrown matches ThrownEntityCharacteristics::Custom(b) && premade_food(*b, 20)
    }
}

/// Where the black hole map puts its `k`th thrower (of twenty-four): six
/// along the top and bottom edges at a tenth from them, then six along the
/// left and right edges, at sevenths of the width.
pub open spec fn black_hole_ring(k: int) -> (int, int) {
    if k < 12 {
        ((k / 2 + 1) * 285_714, if k % 2 == 0 { 200_000 } else { 1_800_000 })
    } else {
        let j = k - 12;
        (if j / 6 == 0 { 200_000 } else { 1_800_000 }, (j % 6 + 1) * 285_714)
    }
}

/// The names of the maps that `create_premade_map` builds.
pub open spec fn premade_name(name: Seq<char>) -> bool {
    ||| name == "definitive"@
    ||| name == "mona lisa"@
    ||| name == "exponential extreme"@
    ||| name == "paint"@
    ||| name == "example"@
    ||| name == "particles"@
    ||| name == "classic"@
    ||| name == "trail"@
    ||| name == "collisions"@
    ||| name == "black hole"@
    ||| name == "autonomous"@
    ||| name == "gravity"@
}

/// A cleared game gets an empty map of `size` map units.
fn set_empty_map(game: &mut Game, size: Size2D)
    requires
        old(game).wf(),
        old(game).entities.core@.len() == 0,
        map_size_ok(size),
    ensures
        final(game).wf(),
        final(game).map.size == size,
        *final(game) == (Game { map: final(game).map, ..*old(game) }),
{
    game.map = GameMap::new(MapInfo { size });
    proof {
        let m = game.map.matrix_simple;
        assert forall|x: int, y: int, z: usize| m.in_grid(x, y) && #[trigger] m.cell(x, y).contains_key(z) implies false by {
            assert(m.cell(x, y).dom().is_empty());
            assert(m.cell(x, y).dom().contains(z));
        }
    }
}

/// The two players of every premade map, the neutral player 0 and the
/// local player 1 (white, texture fourteen), and the local player's
/// characteristics (see `local_base`).
fn helper_base(game: &mut Game)
    requires
        old(game).wf(),
        old(game).players@.len() == 0,
    ensures
        final(game).wf(),
        final(game).players@.len() == 2,
        final(game).players@[0].kind == PlayerKind::Neutral,
        final(game).players@[1].kind == PlayerKind::Player,
        final(game).players@[1].cell_default_texture == 14,
        local_base(final(game).settings.local_player_characteristics),
        final(game).settings == (crate::game::settings::Settings {
            local_player_characteristics: final(game).settings.local_player_characteristics,
            ..old(game).settings
        }),
        final(game).map == old(game).map,
        final(game).entities == old(game).entities,
        final(game).id_generator == old(game).id_generator,
{
    game.new_player(PlayerInfo::default());
    let colors = default_color();
    game.new_player(PlayerInfo {
        kind: PlayerKind::Player,
        entities: Vec::new(),
        cell_default_color: colors[14],
        cell_default_texture: 14,
    });
    let mut c = EntityCharacteristics::default();
    c.killer = true;
    c.collide = true;
    c.mergeable = true;
    c.mass_min = RATIO_MASS * 10;
    c.mass_max = RATIO_MASS * 100_000;
    c.can_split_on_kill = true;
    c.throw_entity = None;
    c.inertia = 2;
    game.settings.local_player_characteristics = c;
}

/// An entity of the local player at `position`: ten units of mass (within
/// the local player's bounds), the local player's characteristics, colour
/// and texture.
fn helper_new_entity_location(game: &mut Game, position: Point2D)
    requires
        old(game).wf(),
        old(game).players@.len() == 2,
        old(game).settings.local_player_characteristics.mass_min <= old(game).settings.local_player_characteristics.mass_max,
        old(game).entities.core@.len() < usize::MAX,
        old(game).entities.main_ptrs@.len() < usize::MAX,
        old(game).id_generator.can_generate(),
        0 <= position.x <= old(game).map.max_spec().width,
        0 <= position.y <= old(game).map.max_spec().height,
    ensures
        final(game).wf(),
        final(game).entities.core@.len() == old(game).entities.core@.len() + 1,
        final(game).entities.main_ptrs@.len() == old(game).entities.main_ptrs@.len() + 1,
        final(game).id_generator.next <= old(game).id_generator.next + 1,
        final(game).settings == old(game).settings,
        final(game).map.size == old(game).map.size,
        final(game).players@.len() == 2,
        final(game).players@[0].kind == old(game).players@[0].kind,
        final(game).players@[1].kind == old(game).players@[1].kind,
        final(game).players@[1].cell_default_texture == old(game).players@[1].cell_default_texture,
        placed(
            *final(game),
            old(game).entities.core@.len() as int,
            1,
            position.x as int,
            position.y as int,
            crate::entity::entities::clamp_spec(
                10 * RATIO_MASS,
                old(game).settings.local_player_characteristics.mass_min as int,
                old(game).settings.local_player_characteristics.mass_max as int,
            ),
        ),
        same_characteristics(
            final(game).entities.core@[old(game).entities.core@.len() as int].characteristics,
            old(game).settings.local_player_characteristics,
        ),
        forall|j: int| 0 <= j < old(game).entities.core@.len() ==> #[trigger] final(game).entities.core@[j]
            == old(game).entities.core@[j],
        forall|j: int| 0 <= j < old(game).entities.core@.len() ==> #[trigger] final(game).entities.position@[j]
            == old(game).entities.position@[j],
        forall|j: int| 0 <= j < old(game).entities.core@.len() ==> #[trigger] final(game).entities.mass@[j]
            == old(game).entities.mass@[j],
{
    let info = EntityInfo {
        player: 1,
        position,
        mass: RATIO_MASS * 10,
        color: game.players[1].cell_default_color,
        texture: game.players[1].cell_default_texture,
        timer: EntityTimer::default(),
        characteristics: game.settings.local_player_characteristics.duplicate(),
    };
    game.new_entity(info);
}

/// The food of the premade throwers.
fn premade_food_characteristics(inertia: i32) -> (c: EntityCharacteristics)
    ensures
        premade_food(c, inertia as int),
        c.mass_min <= c.mass_max,
{
    let mut c = EntityCharacteristics::default();
    c.killer = false;
    c.collide = false;
    c.mass_min = RATIO_MASS;
    c.mass_max = RATIO_MASS;
    c.throw_entity = None;
    c.inertia = inertia;
    c
}

fn texture_range() -> (v: Vec<usize>)
    ensures
        v@ == seq![1usize, 2, 3, 4, 5, 6, 7, 8, 9, 10, 11, 12],
{
    let v = vec![1usize, 2, 3, 4, 5, 6, 7, 8, 9, 10, 11, 12];
    assert(v@ =~= seq![1usize, 2, 3, 4, 5, 6, 7, 8, 9, 10, 11, 12]);
    v
}

/// The characteristics of the neutral throwers (see `premade_thrower`).
fn premade_thrower_characteristics() -> (c: EntityCharacteristics)
    ensures
        premade_thrower(c),
{
    let mut c = EntityCharacteristics::default();
    c.killer = true;
    c.on_death = Some(OnDeathEffect::Split(8));
    c.mass_max = RATIO_MASS * 100_000;
    c.throw_entity = Some(ThrowEntityInfo {
        mass_minimum_to_throw: RATIO_MASS * 200,
        mass_self_added: -RATIO_MASS / 2,
        mass_entity_thrown: RATIO_MASS,
        power: IntRange { start: 500, end: 1_000 },
        color: ThrownEntityColor::Random(default_color_random()),
        texture: ThrownEntityTexture::Random(texture_range()),
        timer_entity_thrown: EntityTimer::default(),
        characteristics_entity_thrown: ThrownEntityCharacteristics::Custom(Box::new(premade_food_characteristics(10))),
    });
    c
}

/// The characteristics of the black hole (see `black_hole_source`).
fn black_hole_characteristics() -> (c: EntityCharacteristics)
    ensures
        black_hole_source(c),
{
    let mut c = EntityCharacteristics::default();
    c.killer = true;
    c.gravity = Some(EntityGravityInfo { distance_ratio: DistanceRatio::Squared });
    c.invincible = false;
    c.on_death = Some(OnDeathEffect::Split(8));
    c.mass_min = RATIO_MASS * 100;
    c.mass_max = RATIO_MASS * 10_000_000;
    c.throw_entity = Some(ThrowEntityInfo {
        mass_minimum_to_throw: RATIO_MASS * 1_000,
        mass_self_added: -RATIO_MASS,
        mass_entity_thrown: RATIO_MASS,
        power: IntRange { start: 10_000, end: 20_000 },
        color: ThrownEntityColor::Random(default_color_random()),
        texture: ThrownEntityTexture::Random(texture_range()),
        timer_entity_thrown: EntityTimer::default(),
        characteristics_entity_thrown: ThrownEntityCharacteristics::Custom(Box::new(premade_food_characteristics(20))),
    });
    c
}

/// A game just cleared, with room for `k` more identifiers and handles.
pub open spec fn cleared_with_room(g: Game, k: int) -> bool {
    &&& g.wf()
    &&& default_settings(g.settings)
    &&& g.players@.len() == 0
    &&& g.entities.core@.len() == 0
    &&& g.entities.main_ptrs@.len() + k < usize::MAX
    &&& g.id_generator.next + k < usize::MAX
}

/// The settings `s` that a map leaves are the settings `d` it started
/// from but for the local player's characteristics and the cap on spawned
/// cells (the trail, example and exponential extreme maps).
pub open spec fn settings_but_cap(s: Settings, d: Settings) -> bool {
    s == (Settings { local_player_characteristics: s.local_player_characteristics, max_cells_spawn: s.max_cells_spawn, ..d })
}

/// The autonomous map's settings: `d` but for the local player's
/// characteristics, the cap on spawned cells and the cost of food.
pub open spec fn autonomous_settings(s: Settings, d: Settings) -> bool {
    s == (Settings {
        local_player_characteristics: s.local_player_characteristics,
        max_cells_spawn: s.max_cells_spawn,
        local_player_food_settings: ThrownFoodInfo {
            mass_self_added: s.local_player_food_settings.mass_self_added,
            ..d.local_player_food_settings
        },
        ..d
    })
}

/// The gravity map's settings: `d` but for the local player's
/// characteristics, the cap on spawned cells and the cap on splits.
pub open spec fn gravity_settings(s: Settings, d: Settings) -> bool {
    s == (Settings {
        local_player_characteristics: s.local_player_characteristics,
        max_cells_spawn: s.max_cells_spawn,
        max_split: s.max_split,
        ..d
    })
}

/// The settings of the black hole and classic maps: `d` but for the local
/// player's characteristics, the cap on spawned cells and how many spawn
/// per update.
pub open spec fn settings_but_spawning(s: Settings, d: Settings) -> bool {
    s == (Settings {
        local_player_characteristics: s.local_player_characteristics,
        max_cells_spawn: s.max_cells_spawn,
        auto_spawn: AutoSpawnSettings { amount: s.auto_spawn.amount, ..d.auto_spawn },
        ..d
    })
}

/// The collisions map's settings: `d` but for the local player's
/// characteristics, the cap on spawned cells, how many spawn per update
/// and their colours.
pub open spec fn collisions_settings(s: Settings, d: Settings) -> bool {
    s == (Settings {
        local_player_characteristics: s.local_player_characteristics,
        max_cells_spawn: s.max_cells_spawn,
        auto_spawn: AutoSpawnSettings { amount: s.auto_spawn.amount, color: s.auto_spawn.color, ..d.auto_spawn },
        ..d
    })
}

/// The definitive map's settings: those of the collisions map, and the
/// special rules.
pub open spec fn definitive_settings(s: Settings, d: Settings) -> bool {
    s == (Settings {
        local_player_characteristics: s.local_player_characteristics,
        max_cells_spawn: s.max_cells_spawn,
        auto_spawn: AutoSpawnSettings { amount: s.auto_spawn.amount, color: s.auto_spawn.color, ..d.auto_spawn },
        special: s.special,
        ..d
    })
}

/// The paint map's settings: `d` but for the local player's
/// characteristics, how many cells spawn per update, and what the local
/// player's food costs, weighs and looks like, and from when it is thrown.
pub open spec fn paint_settings(s: Settings, d: Settings) -> bool {
    s == (Settings {
        local_player_characteristics: s.local_player_characteristics,
        auto_spawn: AutoSpawnSettings { amount: s.auto_spawn.amount, ..d.auto_spawn },
        local_player_food_settings: ThrownFoodInfo {
            mass_minimum_to_throw: s.local_player_food_settings.mass_minimum_to_throw,
            mass_self_added: s.local_player_food_settings.mass_self_added,
            mass_entity_thrown: s.local_player_food_settings.mass_entity_thrown,
            color: s.local_player_food_settings.color,
            texture: s.local_player_food_settings.texture,
            ..d.local_player_food_settings
        },
        ..d
    })
}

/// The particles map's settings: `d` but for the local player's
/// characteristics, the cap on spawned cells, the inertia and colour of
/// spawned cells, and the cap on splits.
pub open spec fn particles_settings(s: Settings, d: Settings) -> bool {
    s == (Settings {
        local_player_characteristics: s.local_player_characteristics,
        max_cells_spawn: s.max_cells_spawn,
        max_split: s.max_split,
        auto_spawn: AutoSpawnSettings {
            color: s.auto_spawn.color,
            characteristics: EntityCharacteristics {
                inertia: s.auto_spawn.characteristics.inertia,
                ..d.auto_spawn.characteristics
            },
            ..d.auto_spawn
        },
        ..d
    })
}

/// The two players of a premade map and the local player's base
/// characteristics.
pub open spec fn premade_players(g: Game) -> bool {
    &&& g.players@.len() == 2
    &&& g.players@[0].kind == PlayerKind::Neutral
    &&& g.players@[1].kind == PlayerKind::Player
    &&& g.players@[1].cell_default_texture == 14
    &&& local_base(g.settings.local_player_characteristics)
}

/// The "autonomous" map: 100 by 100 map units, at most twenty thousand
/// spawned cells, food that costs the thrower one unit, and the local
/// player's entity alone at the centre.
pub open spec fn autonomous_made(g: Game) -> bool {
    &&& g.wf()
    &&& g.map.size == (Size2D { width: 100, height: 100 })
    &&& premade_players(g)
    &&& g.settings.max_cells_spawn == 20_000
    &&& g.settings.local_player_food_settings.mass_self_added == -RATIO_MASS
    &&& g.entities.core@.len() == 1
    &&& placed(g, 0, 1, 499_999, 499_999, 10 * RATIO_MASS)
    &&& same_characteristics(g.entities.core@[0].characteristics, g.settings.local_player_characteristics)
}

/// The "gravity" map: 100 by 100 map units, at most twenty thousand
/// spawned cells, four splits at most, a local player whose entities
/// attract, its entity at the centre, and ten neutral throwers of two
/// hundred units on the map, where chance puts them.
pub open spec fn gravity_made(g: Game) -> bool {
    &&& g.wf()
    &&& g.map.size == (Size2D { width: 100, height: 100 })
    &&& premade_players(g)
    &&& g.settings.local_player_characteristics.gravity is Some
    &&& g.settings.max_cells_spawn == 20_000
    &&& g.settings.max_split == 4
    &&& g.entities.core@.len() == 11
    &&& placed(g, 0, 1, 499_999, 499_999, 10 * RATIO_MASS)
    &&& same_characteristics(g.entities.core@[0].characteristics, g.settings.local_player_characteristics)
    &&& forall|j: int| #![trigger g.entities.core@[j]] 1 <= j < 11 ==> {
        &&& g.entities.core@[j].player == 0
        &&& 0 <= g.entities.position@[j].x < 1_000_000
        &&& 0 <= g.entities.position@[j].y < 1_000_000
        &&& g.entities.mass@[j] == 200 * RATIO_MASS
        &&& premade_thrower(g.entities.core@[j].characteristics)
    }
}

/// The "black hole" map: 200 by 200 map units, at most twenty thousand
/// spawned cells, a hundred per update, the local player's entity in the
/// upper left corner, the black hole of two hundred units at the centre,
/// and twenty-four neutral throwers of two hundred units around it (see
/// `black_hole_ring`).
pub open spec fn black_hole_made(g: Game) -> bool {
    &&& g.wf()
    &&& g.map.size == (Size2D { width: 200, height: 200 })
    &&& premade_players(g)
    &&& g.settings.max_cells_spawn == 20_000
    &&& g.settings.auto_spawn.amount == 100
    &&& g.entities.core@.len() == 26
    &&& placed(g, 0, 1, 0, 0, 10 * RATIO_MASS)
    &&& same_characteristics(g.entities.core@[0].characteristics, g.settings.local_player_characteristics)
    &&& placed(g, 1, 0, 1_000_000, 1_000_000, 200 * RATIO_MASS)
    &&& black_hole_source(g.entities.core@[1].characteristics)
    &&& forall|j: int| #![trigger g.entities.core@[j]] 2 <= j < 26 ==> {
        &&& placed(g, j, 0, black_hole_ring(j - 2).0, black_hole_ring(j - 2).1, 200 * RATIO_MASS)
        &&& premade_thrower(g.entities.core@[j].characteristics)
    }
}




/// The neutral food cells of the classic map: they split their killer in
/// eight, and are otherwise plain cells.
pub open spec fn classic_food(c: EntityCharacteristics) -> bool {
    &&& !c.killer
    &&& c.on_death == Some(OnDeathEffect::Split(8))
    &&& c.mass_min == RATIO_MASS
    &&& c.mass_max == 1_000_000 * RATIO_MASS
    &&& c.throw_entity is None
}

/// Entity `j` of `g` is a neutral entity of `mass` somewhere on a map of
/// `w` by `h` world units.
pub open spec fn scattered(g: Game, j: int, w: int, h: int, mass: int) -> bool {
    &&& g.entities.core@[j].player == 0
    &&& 0 <= g.entities.position@[j].x < w
    &&& 0 <= g.entities.position@[j].y < h
    &&& g.entities.mass@[j] == mass
}

/// `count` neutral entities of `mass` with the characteristics `c`, each
/// where chance puts it on the map.
fn scatter(game: &mut Game, count: usize, mass: i64, c: &EntityCharacteristics, color: crate::entity::EntityColor, texture: usize)
    requires
        old(game).wf(),
        old(game).players@.len() >= 1,
        c.mass_min <= mass <= c.mass_max,
        old(game).entities.core@.len() + count < usize::MAX,
        old(game).entities.main_ptrs@.len() + count < usize::MAX,
        old(game).id_generator.next + count < usize::MAX,
    ensures
        final(game).wf(),
        final(game).entities.core@.len() == old(game).entities.core@.len() + count,
        final(game).entities.main_ptrs@.len() == old(game).entities.main_ptrs@.len() + count,
        final(game).id_generator.next <= old(game).id_generator.next + count,
        final(game).settings == old(game).settings,
        final(game).map.size == old(game).map.size,
        final(game).players@.len() == old(game).players@.len(),
        forall|p: int| 0 <= p < old(game).players@.len() ==> {
            &&& (#[trigger] final(game).players@[p]).kind == old(game).players@[p].kind
            &&& final(game).players@[p].cell_default_texture == old(game).players@[p].cell_default_texture
        },
        forall|j: int| 0 <= j < old(game).entities.core@.len() ==> {
            &&& #[trigger] final(game).entities.core@[j] == old(game).entities.core@[j]
            &&& final(game).entities.position@[j] == old(game).entities.position@[j]
            &&& final(game).entities.mass@[j] == old(game).entities.mass@[j]
        },
        forall|j: int| #![trigger final(game).entities.core@[j]] old(game).entities.core@.len() <= j < final(game).entities.core@.len() ==> {
            &&& scattered(
                *final(game),
                j,
                old(game).map.size.width * old(game).map.size_field,
                old(game).map.size.height * old(game).map.size_field,
                mass as int,
            )
            &&& same_characteristics(final(game).entities.core@[j].characteristics, *c)
        },
{
    let ghost g0 = *game;
    let ghost n0 = g0.entities.core@.len() as int;
    let w: i32 = game.map.size.width * game.map.size_field;
    let h: i32 = game.map.size.height * game.map.size_field;
    assert(w >= 1 && h >= 1) by (nonlinear_arith)
        requires
            w == g0.map.size.width * g0.map.size_field,
            h == g0.map.size.height * g0.map.size_field,
            g0.map.size.width >= 1,
            g0.map.size.height >= 1,
            g0.map.size_field == 10_000,
    ;
    let mut k: usize = 0;
    while k < count
        invariant
            k <= count,
            g0.wf(),
            game.wf(),
            w >= 1,
            h >= 1,
            w == g0.map.size.width * g0.map.size_field,
            h == g0.map.size.height * g0.map.size_field,
            game.map.size == g0.map.size,
            game.map.max_spec() == g0.map.max_spec(),
            game.settings == g0.settings,
            game.players@.len() == g0.players@.len(),
            g0.players@.len() >= 1,
            c.mass_min <= mass <= c.mass_max,
            forall|p: int| 0 <= p < g0.players@.len() ==> {
                &&& (#[trigger] game.players@[p]).kind == g0.players@[p].kind
                &&& game.players@[p].cell_default_texture == g0.players@[p].cell_default_texture
            },
            game.entities.core@.len() == n0 + k,
            n0 == g0.entities.core@.len(),
            game.entities.main_ptrs@.len() == g0.entities.main_ptrs@.len() + k,
            game.id_generator.next <= g0.id_generator.next + k,
            g0.entities.core@.len() + count < usize::MAX,
            g0.entities.main_ptrs@.len() + count < usize::MAX,
            g0.id_generator.next + count < usize::MAX,
            forall|j: int| 0 <= j < n0 ==> {
                &&& #[trigger] game.entities.core@[j] == g0.entities.core@[j]
                &&& game.entities.position@[j] == g0.entities.position@[j]
                &&& game.entities.mass@[j] == g0.entities.mass@[j]
            },
            forall|j: int| #![trigger game.entities.core@[j]] n0 <= j < n0 + k ==> {
                &&& scattered(*game, j, w as int, h as int, mass as int)
                &&& same_characteristics(game.entities.core@[j].characteristics, *c)
            },
        decreases count - k,
    {
        let x = crate::random::random_in(0, (w - 1) as i64);
        let y = crate::random::random_in(0, (h - 1) as i64);
        let info = EntityInfo {
            player: 0,
            position: Point2D { x: x as i32, y: y as i32 },
            mass,
            color,
            texture,
            timer: EntityTimer::default(),
            characteristics: c.duplicate(),
        };
        let ghost before = *game;
        game.new_entity(info);
        proof {
            assert forall|j: int| 0 <= j < n0 implies {
                &&& #[trigger] game.entities.core@[j] == g0.entities.core@[j]
                &&& game.entities.position@[j] == g0.entities.position@[j]
                &&& game.entities.mass@[j] == g0.entities.mass@[j]
            } by {
                assert(before.entities.core@[j] == g0.entities.core@[j]);
            }
            assert forall|j: int| #![trigger game.entities.core@[j]] n0 <= j < n0 + k + 1 implies {
                &&& scattered(*game, j, w as int, h as int, mass as int)
                &&& same_characteristics(game.entities.core@[j].characteristics, *c)
            } by {
                if j < n0 + k {
                    assert(before.entities.core@[j] == game.entities.core@[j]);
                }
            }
        }
        k = k + 1;
    }
}

/// The "classic" map: 200 by 200 map units, at most a hundred thousand
/// spawned cells, five hundred per update, the local player's entity at
/// the centre, a hundred neutral cells of a hundred units and twenty-five
/// neutral throwers of two hundred units where chance puts them.
pub open spec fn classic_made(g: Game) -> bool {
    &&& g.wf()
    &&& g.map.size == (Size2D { width: 200, height: 200 })
    &&& premade_players(g)
    &&& g.settings.max_cells_spawn == 100_000
    &&& g.settings.auto_spawn.amount == 500
    &&& g.entities.core@.len() == 126
    &&& placed(g, 0, 1, 999_999, 999_999, 10 * RATIO_MASS)
    &&& same_characteristics(g.entities.core@[0].characteristics, g.settings.local_player_characteristics)
    &&& forall|j: int| #![trigger g.entities.core@[j]] 1 <= j < 101 ==> {
        &&& scattered(g, j, 2_000_000, 2_000_000, 100 * RATIO_MASS)
        &&& classic_food(g.entities.core@[j].characteristics)
    }
    &&& forall|j: int| #![trigger g.entities.core@[j]] 101 <= j < 126 ==> {
        &&& scattered(g, j, 2_000_000, 2_000_000, 200 * RATIO_MASS)
        &&& premade_thrower(g.entities.core@[j].characteristics)
    }
}


/// The killer at the centre of the collisions map: between a thousand and
/// a hundred thousand units, it splits its killer in eight and throws
/// colliding pieces of ten units for five units each from two thousand
/// units on.
pub open spec fn collisions_source(c: EntityCharacteristics) -> bool {
    &&& c.killer
    &&& c.on_death == Some(OnDeathEffect::Split(8))
    &&& c.mass_min == 1_000 * RATIO_MASS
    &&& c.mass_max == 100_000 * RATIO_MASS
    &&& c.throw_entity matches Some(t) && {
        &&& t.mass_minimum_to_throw == 2_000 * RATIO_MASS
        &&& t.mass_self_added == -5 * RATIO_MASS
        &&& t.mass_entity_thrown == 10 * RATIO_MASS
        &&& t.power == (IntRange::<i32> { start: 1_000, end: 2_000 })
        &&& t.color matches ThrownEntityColor::Random(v) && v@.len() == 6
        &&& t.texture == ThrownEntityTexture::CustomIndex(2)
        &&& t.characteristics_entity_thrown matches ThrownEntityCharacteristics::Custom(b) && {
            &&& !b.killer
            &&& b.collide
            &&& b.collide_when_mergeable
            &&& b.mass_min == RATIO_MASS
            &&& b.mass_max == 10_000 * RATIO_MASS
            &&& b.throw_entity is None
            &&& b.inertia == 30
        }
    }
}

/// The "collisions" map: 100 by 100 map units, at most ten thousand
/// spawned cells, a hundred per update in the random palette, the local
/// player's entity ten map units left of the centre and a killer thrower
/// of two thousand units at the centre.
pub open spec fn collisions_made(g: Game) -> bool {
    &&& g.wf()
    &&& g.map.size == (Size2D { width: 100, height: 100 })
    &&& premade_players(g)
    &&& g.settings.max_cells_spawn == 10_000
    &&& g.settings.auto_spawn.amount == 100
    &&& g.settings.auto_spawn.color matches crate::game::settings::AutoSpawnEntityColor::Random(v) && v@.len() == 6
    &&& g.entities.core@.len() == 2
    &&& placed(g, 0, 1, 400_000, 500_000, 10 * RATIO_MASS)
    &&& same_characteristics(g.entities.core@[0].characteristics, g.settings.local_player_characteristics)
    &&& placed(g, 1, 0, 500_000, 500_000, 2_000 * RATIO_MASS)
    &&& collisions_source(g.entities.core@[1].characteristics)
}


/// The local player of the trail map throws, from a hundred units on,
/// plain pieces of two units for two units each, of its own colour and
/// texture; it is otherwise the local player of every premade map.
pub open spec fn trail_local(c: EntityCharacteristics) -> bool {
    &&& c.killer
    &&& c.collide
    &&& c.mergeable
    &&& c.can_split_on_kill
    &&& c.mass_min == 10 * RATIO_MASS
    &&& c.mass_max == 100_000 * RATIO_MASS
    &&& c.inertia == 2
    &&& c.throw_entity matches Some(t) && {
        &&& t.mass_minimum_to_throw == 100 * RATIO_MASS
        &&& t.mass_self_added == -2 * RATIO_MASS
        &&& t.mass_entity_thrown == 2 * RATIO_MASS
        &&& t.power == (IntRange::<i32> { start: 500, end: 1_000 })
        &&& t.color == ThrownEntityColor::Same
        &&& t.texture == ThrownEntityTexture::Same
        &&& t.characteristics_entity_thrown matches ThrownEntityCharacteristics::Custom(b) && {
            &&& !b.killer
            &&& b.mass_min == RATIO_MASS
            &&& b.mass_max == 1_000_000 * RATIO_MASS
            &&& b.throw_entity is None
        }
    }
}

/// The "trail" map: 50 by 50 map units, no spawned cells, the neutral and
/// the local players twice over (the local entity belongs to the first
/// local player), the local player's entity in the upper left corner, and
/// a killer thrower of a hundred thousand units at the centre.
pub open spec fn trail_made(g: Game) -> bool {
    &&& g.wf()
    &&& g.map.size == (Size2D { width: 50, height: 50 })
    &&& g.players@.len() == 4
    &&& g.players@[0].kind == PlayerKind::Neutral
    &&& g.players@[1].kind == PlayerKind::Player
    &&& g.players@[2].kind == PlayerKind::Neutral
    &&& g.players@[3].kind == PlayerKind::Player
    &&& trail_local(g.settings.local_player_characteristics)
    &&& g.settings.max_cells_spawn == 0
    &&& g.entities.core@.len() == 2
    &&& placed(g, 0, 1, 0, 0, 10 * RATIO_MASS)
    &&& same_characteristics(g.entities.core@[0].characteristics, g.settings.local_player_characteristics)
    &&& placed(g, 1, 0, 250_000, 250_000, 100_000 * RATIO_MASS)
    &&& ({
        let c = g.entities.core@[1].characteristics;
        &&& c.killer
        &&& c.on_death == Some(OnDeathEffect::Split(8))
        &&& c.mass_min == 500 * RATIO_MASS
        &&& c.mass_max == 100_000 * RATIO_MASS
        &&& c.throw_entity matches Some(t) && {
            &&& t.mass_minimum_to_throw == 1_000 * RATIO_MASS
            &&& t.mass_self_added == -RATIO_MASS
            &&& t.mass_entity_thrown == RATIO_MASS
            &&& t.power == (IntRange::<i32> { start: 100, end: 10_000 })
            &&& t.characteristics_entity_thrown matches ThrownEntityCharacteristics::Custom(b) && {
                &&& !b.killer
                &&& !b.collide
                &&& b.mass_min == RATIO_MASS
                &&& b.mass_max == 100 * RATIO_MASS
                &&& b.throw_entity is None
            }
        }
    })
}


/// Where the example map puts its `k`th thrower (of eight): the centres of
/// the cells of a three by three grid over the map, column by column, but
/// the middle one.
pub open spec fn example_slot(k: int) -> (int, int) {
    let slot = if k < 4 { k } else { k + 1 };
    ((slot / 3) * 1_000_000 / 3 + 166_666, (slot % 3) * 1_000_000 / 3 + 166_666)
}

/// The throwers of the example map: killers that do not collide, between
/// two hundred and fifty thousand units, that split their killer in eight
/// and throw one-unit food for half a unit each from two hundred units on.
pub open spec fn example_thrower(c: EntityCharacteristics) -> bool {
    &&& c.killer
    &&& !c.collide
    &&& c.on_death == Some(OnDeathEffect::Split(8))
    &&& c.mass_min == 200 * RATIO_MASS
    &&& c.mass_max == 50_000 * RATIO_MASS
    &&& c.throw_entity matches Some(t) && {
        &&& t.mass_minimum_to_throw == 200 * RATIO_MASS
        &&& t.mass_self_added == -RATIO_MASS / 2
        &&& t.mass_entity_thrown == RATIO_MASS
        &&& t.power == (IntRange::<i32> { start: 500, end: 1_000 })
        &&& t.characteristics_entity_thrown matches ThrownEntityCharacteristics::Custom(b) && premade_food(*b, 10)
    }
}

/// The "example" map: 100 by 100 map units, at most twenty thousand
/// spawned cells, the local player's entity in the upper left corner,
/// eight throwers of two hundred units around the centre (see
/// `example_slot`), and at the centre a killer of five thousand units
/// that splits its killer in sixty-four.
pub open spec fn example_made(g: Game) -> bool {
    &&& g.wf()
    &&& g.map.size == (Size2D { width: 100, height: 100 })
    &&& premade_players(g)
    &&& g.settings.max_cells_spawn == 20_000
    &&& g.entities.core@.len() == 10
    &&& placed(g, 0, 1, 0, 0, 10 * RATIO_MASS)
    &&& same_characteristics(g.entities.core@[0].characteristics, g.settings.local_player_characteristics)
    &&& forall|j: int| #![trigger g.entities.core@[j]] 1 <= j < 9 ==> {
        &&& placed(g, j, 0, example_slot(j - 1).0, example_slot(j - 1).1, 200 * RATIO_MASS)
        &&& example_thrower(g.entities.core@[j].characteristics)
    }
    &&& placed(g, 9, 0, 500_000, 500_000, 5_000 * RATIO_MASS)
    &&& ({
        let c = g.entities.core@[9].characteristics;
        &&& c.killer
        &&& !c.collide
        &&& c.on_death == Some(OnDeathEffect::Split(64))
        &&& c.mass_min == 1_000 * RATIO_MASS
        &&& c.mass_max == 100_000 * RATIO_MASS
        &&& c.throw_entity matches Some(t) && {
            &&& t.mass_minimum_to_throw == 5_000 * RATIO_MASS
            &&& t.mass_self_added == -RATIO_MASS / 2
            &&& t.mass_entity_thrown == RATIO_MASS
            &&& t.power == (IntRange::<i32> { start: 500, end: 10_000 })
            &&& t.characteristics_entity_thrown matches ThrownEntityCharacteristics::Custom(b) && {
                &&& b.killer
                &&& !b.collide
                &&& b.mass_min == RATIO_MASS
                &&& b.mass_max == 20 * RATIO_MASS
                &&& b.throw_entity is None
                &&& b.inertia == 100
            }
        }
    })
}

fn example_thrower_characteristics() -> (c: EntityCharacteristics)
    ensures
        example_thrower(c),
{
    let food = premade_food_characteristics(10);
    let mut c = EntityCharacteristics::default();
    c.killer = true;
    c.collide = false;
    c.mass_min = RATIO_MASS * 200;
    c.mass_max = RATIO_MASS * 50_000;
    c.on_death = Some(OnDeathEffect::Split(8));
    c.throw_entity = Some(ThrowEntityInfo {
        mass_minimum_to_throw: RATIO_MASS * 200,
        mass_self_added: -RATIO_MASS / 2,
        mass_entity_thrown: RATIO_MASS,
        power: IntRange { start: 500, end: 1_000 },
        color: ThrownEntityColor::Random(default_color_random()),
        texture: ThrownEntityTexture::Random(texture_range()),
        timer_entity_thrown: EntityTimer::default(),
        characteristics_entity_thrown: ThrownEntityCharacteristics::Custom(Box::new(food)),
    });
    c
}


/// The "particles" map: 100 by 100 map units, at most twenty thousand
/// spawned cells of the last uniform colour that hardly move, a local
/// player of exactly one unit that cannot split twice, its entity in the
/// upper left corner, and three invincible attracting cells of two hundred
/// units where chance puts them.
pub open spec fn particles_made(g: Game) -> bool {
    let l = g.settings.local_player_characteristics;
    &&& g.wf()
    &&& g.map.size == (Size2D { width: 100, height: 100 })
    &&& g.players@.len() == 2
    &&& g.players@[0].kind == PlayerKind::Neutral
    &&& g.players@[1].kind == PlayerKind::Player
    &&& l.killer && l.collide && l.mergeable && l.can_split_on_kill
    &&& l.mass_min == RATIO_MASS
    &&& l.mass_max == RATIO_MASS
    &&& l.inertia == 20
    &&& g.settings.max_split == 1
    &&& g.settings.max_cells_spawn == 20_000
    &&& g.settings.auto_spawn.characteristics.inertia == 500
    &&& g.settings.auto_spawn.color is Custom
    &&& g.entities.core@.len() == 4
    &&& placed(g, 0, 1, 0, 0, RATIO_MASS as int)
    &&& same_characteristics(g.entities.core@[0].characteristics, l)
    &&& forall|j: int| #![trigger g.entities.core@[j]] 1 <= j < 4 ==> {
        let c = g.entities.core@[j].characteristics;
        &&& scattered(g, j, 1_000_000, 1_000_000, 200 * RATIO_MASS)
        &&& !c.killer
        &&& c.affected_by_gravity
        &&& c.invincible
        &&& c.gravity is Some
        &&& c.on_death == Some(OnDeathEffect::Split(8))
        &&& c.mass_max == 100_000 * RATIO_MASS
        &&& c.throw_entity is None
        &&& c.inertia == 10_000
    }
}


/// The two players of a premade map, and a local player that is the
/// usual one (see `local_base`) but for its bounds of mass.
pub open spec fn premade_players_bounded(g: Game, mass_min: int, mass_max: int) -> bool {
    let l = g.settings.local_player_characteristics;
    &&& g.players@.len() == 2
    &&& g.players@[0].kind == PlayerKind::Neutral
    &&& g.players@[1].kind == PlayerKind::Player
    &&& l.killer && l.collide && l.mergeable && l.can_split_on_kill
    &&& l.throw_entity is None
    &&& l.inertia == 2
    &&& l.mass_min == mass_min
    &&& l.mass_max == mass_max
}

/// The "exponential extreme" map: 100 by 100 map units, at most ten
/// thousand spawned cells, a local player of at most fifty thousand units
/// whose entity stands ten map units left of the centre, and at the
/// centre a killer of five hundred units that throws killers which throw
/// in turn.
pub open spec fn exponential_extreme_made(g: Game) -> bool {
    &&& g.wf()
    &&& g.map.size == (Size2D { width: 100, height: 100 })
    &&& premade_players_bounded(g, 10 * RATIO_MASS, 50_000 * RATIO_MASS)
    &&& g.settings.max_cells_spawn == 10_000
    &&& g.entities.core@.len() == 2
    &&& placed(g, 0, 1, 399_999, 499_999, 10 * RATIO_MASS)
    &&& same_characteristics(g.entities.core@[0].characteristics, g.settings.local_player_characteristics)
    &&& placed(g, 1, 0, 500_000, 500_000, 500 * RATIO_MASS)
    &&& ({
        let c = g.entities.core@[1].characteristics;
        &&& c.killer
        &&& c.on_death == Some(OnDeathEffect::Split(8))
        &&& c.mass_min == 100 * RATIO_MASS
        &&& c.mass_max == 50_000 * RATIO_MASS
        &&& c.throw_entity matches Some(t) && {
            &&& t.mass_minimum_to_throw == 200 * RATIO_MASS
            &&& t.mass_self_added == -RATIO_MASS / 2
            &&& t.mass_entity_thrown == RATIO_MASS
            &&& t.power == (IntRange::<i32> { start: 100, end: 1_000 })
            &&& t.characteristics_entity_thrown matches ThrownEntityCharacteristics::Custom(b) && {
                &&& b.killer
                &&& !b.collide
                &&& b.mass_min == RATIO_MASS
                &&& b.mass_max == 5_000 * RATIO_MASS
                &&& b.throw_entity matches Some(u) && {
                    &&& u.mass_minimum_to_throw == 2 * RATIO_MASS
                    &&& u.mass_self_added == -RATIO_MASS / 2
                    &&& u.mass_entity_thrown == RATIO_MASS
                    &&& u.power == (IntRange::<i32> { start: 500, end: 5_000 })
                    &&& u.characteristics_entity_thrown == ThrownEntityCharacteristics::Same
                }
            }
        }
    })
}


/// Where the paint map puts its `k`th wall cell (of eight hundred): two
/// hundred pairs along the top and bottom edges, then two hundred along
/// the left edge and two hundred along the right one, every 2,499 world
/// units.
pub open spec fn paint_wall(k: int) -> (int, int) {
    if k < 400 {
        ((k / 2) * 2_499, if k % 2 == 0 { 0 } else { 499_999 })
    } else {
        let j = k - 400;
        (if j / 200 == 0 { 0 } else { 499_999 }, (j % 200) * 2_499)
    }
}

/// The "paint" map: 50 by 50 map units, no spawned cells, a local player
/// of exactly one unit that throws one-unit pieces of white at no cost as
/// soon as it can, its entity low in the middle, and eight hundred plain
/// cells of ten units along the edges (see `paint_wall`).
pub open spec fn paint_made(g: Game) -> bool {
    let f = g.settings.local_player_food_settings;
    &&& g.wf()
    &&& g.map.size == (Size2D { width: 50, height: 50 })
    &&& premade_players_bounded(g, RATIO_MASS as int, RATIO_MASS as int)
    &&& g.settings.auto_spawn.amount == 0
    &&& f.mass_minimum_to_throw == RATIO_MASS - 1
    &&& f.mass_self_added == 0
    &&& f.mass_entity_thrown == RATIO_MASS
    &&& f.color is Custom
    &&& f.texture == ThrownEntityTexture::CustomIndex(14)
    &&& g.entities.core@.len() == 801
    &&& placed(g, 0, 1, 249_999, 449_991, RATIO_MASS as int)
    &&& same_characteristics(g.entities.core@[0].characteristics, g.settings.local_player_characteristics)
    &&& forall|j: int| #![trigger g.entities.core@[j]] 1 <= j < 801 ==> {
        &&& placed(g, j, 0, paint_wall(j - 1).0, paint_wall(j - 1).1, 10 * RATIO_MASS)
        &&& !g.entities.core@[j].characteristics.killer
    }
}


/// What some premade maps take from outside the library: for the
/// "definitive" map, computations on real numbers (the palette of the
/// spawned cells, the palette that each big cell throws from, where five
/// of the big cells stand, the first standing at (5,000,000, 1,000,000),
/// and where the six medium cells stand with their colours); for the
/// "mona lisa" map, the decoded picture, row by row, `picture_width`
/// pixels a row.
pub struct PremadeLayout {
    pub spawn_palette: Vec<crate::entity::EntityColor>,
    pub big_palettes: Vec<Vec<crate::entity::EntityColor>>,
    pub big_positions: Vec<Point2D>,
    pub medium_positions: Vec<Point2D>,
    pub medium_colors: Vec<crate::entity::EntityColor>,
    pub picture_width: usize,
    pub picture: Vec<crate::entity::EntityColor>,
}

impl PremadeLayout {
    /// One palette per big cell, a position for each big cell but the
    /// first, and a position and a colour per medium cell.
    pub open spec fn complete(&self) -> bool {
        &&& self.big_palettes@.len() == 6
        &&& self.big_positions@.len() == 5
        &&& self.medium_positions@.len() == 6
        &&& self.medium_colors@.len() == 6
    }

    /// Each pixel of the picture, a thousand world units apart, has
    /// coordinates that fit in `i32`.
    pub open spec fn picture_fits(&self) -> bool {
        self.picture@.len() > 0 ==> {
            &&& self.picture_width > 0
            &&& self.picture_width * 1_000 <= i32::MAX
            &&& (self.picture@.len() as int / self.picture_width as int) * 1_000 <= i32::MAX
        }
    }
}

/// Where the mona lisa map puts the cell of pixel `k` of a picture
/// `width` pixels wide: a thousand world units per pixel, brought onto the
/// map of 40 by 65 map units.
pub open spec fn picture_cell(k: int, width: int) -> (int, int) {
    (
        crate::entity::entities::clamp_spec((k % width) * 1_000, 0, 399_999),
        crate::entity::entities::clamp_spec((k / width) * 1_000, 0, 649_999),
    )
}

/// The "mona lisa" map: 40 by 65 map units, no spawned cells, a local
/// player between one and a hundred units whose entity of a hundred units
/// stands in the middle, and one plain cell of one unit per pixel of the
/// picture, of the pixel's colour (see `picture_cell`).
pub open spec fn mona_lisa_made(g: Game, layout: PremadeLayout) -> bool {
    let n = layout.picture@.len() as int;
    &&& g.wf()
    &&& g.map.size == (Size2D { width: 40, height: 65 })
    &&& premade_players_bounded(g, RATIO_MASS as int, 100 * RATIO_MASS)
    &&& g.settings.max_cells_spawn == 0
    &&& g.entities.core@.len() == 1 + n
    &&& placed(g, 0, 1, 200_000, 625_000, 100 * RATIO_MASS)
    &&& same_characteristics(g.entities.core@[0].characteristics, g.settings.local_player_characteristics)
    &&& forall|j: int| #![trigger g.entities.core@[j]] 1 <= j < 1 + n ==> {
        let (x, y) = picture_cell(j - 1, layout.picture_width as int);
        &&& placed(g, j, 0, x, y, RATIO_MASS as int)
        &&& g.entities.core@[j].color == layout.picture@[j - 1]
        &&& !g.entities.core@[j].characteristics.killer
    }
}

/// The centre colour of the `k`th big cell of the definitive map: red,
/// magenta, blue, light blue, green, yellow; its edge is the same.
pub open spec fn big_cell_center(k: int) -> Seq<u8> {
    if k == 0 {
        crate::game::colors::rgba(240, 15, 15)
    } else if k == 1 {
        crate::game::colors::rgba(240, 15, 240)
    } else if k == 2 {
        crate::game::colors::rgba(15, 15, 240)
    } else if k == 3 {
        crate::game::colors::rgba(15, 240, 240)
    } else if k == 4 {
        crate::game::colors::rgba(15, 240, 15)
    } else {
        crate::game::colors::rgba(240, 240, 15)
    }
}

/// A big cell of the definitive map: a killer that merges and bounces but
/// is not moved by gravity, between a hundred thousand and a million
/// units, throwing plain one-unit cells of `palette` for half a unit each
/// once it passes a hundred thousand units.
pub open spec fn big_cell(c: EntityCharacteristics, palette: Seq<crate::entity::EntityColor>) -> bool {
    &&& c.killer
    &&& c.mergeable
    &&& !c.affected_by_gravity
    &&& c.bounce
    &&& !c.can_split_on_kill
    &&& !c.invincible
    &&& c.inertia == 10
    &&& c.mass_min == 100_000 * RATIO_MASS
    &&& c.mass_max == 1_000_000 * RATIO_MASS
    &&& c.gravity is None
    &&& c.throw_entity matches Some(t) && {
        &&& t.mass_minimum_to_throw == 100_001 * RATIO_MASS
        &&& t.mass_entity_thrown == RATIO_MASS
        &&& t.mass_self_added == -RATIO_MASS / 2
        &&& t.power == (IntRange::<i32> { start: 500, end: 10_000 })
        &&& t.color matches ThrownEntityColor::Random(v) && v@ == palette
        &&& t.characteristics_entity_thrown matches ThrownEntityCharacteristics::Custom(b) && {
            &&& !b.killer
            &&& b.mass_min == RATIO_MASS
            &&& b.mass_max == 1_000_000 * RATIO_MASS
            &&& b.throw_entity is None
        }
    }
}

/// Where the `k`th big cell of the definitive map stands.
pub open spec fn big_cell_at(layout: PremadeLayout, k: int) -> (int, int) {
    if k == 0 {
        (5_000_000, 1_000_000)
    } else {
        (
            crate::entity::entities::clamp_spec(layout.big_positions@[k - 1].x as int, 0, 9_999_999),
            crate::entity::entities::clamp_spec(layout.big_positions@[k - 1].y as int, 0, 9_999_999),
        )
    }
}

/// The "definitive" map: 1,000 by 1,000 map units, at most a hundred
/// thousand spawned cells, a thousand per update in the given palette, the
/// special rules on, six big cells of a hundred thousand units, six plain
/// medium cells of ten thousand units, and the local player's entity at
/// the centre; positions are brought onto the map.
pub open spec fn definitive_made(g: Game, layout: PremadeLayout) -> bool {
    &&& g.wf()
    &&& g.map.size == (Size2D { width: 1_000, height: 1_000 })
    &&& premade_players(g)
    &&& g.settings.max_cells_spawn == 100_000
    &&& g.settings.auto_spawn.amount == 1_000
    &&& g.settings.auto_spawn.color matches crate::game::settings::AutoSpawnEntityColor::Random(v) && v@ == layout.spawn_palette@
    &&& g.settings.special
    &&& g.entities.core@.len() == 13
    &&& forall|k: int| #![trigger g.entities.core@[k]] 0 <= k < 6 ==> {
        &&& placed(g, k, 0, big_cell_at(layout, k).0, big_cell_at(layout, k).1, 100_000 * RATIO_MASS)
        &&& big_cell(g.entities.core@[k].characteristics, layout.big_palettes@[k]@)
        &&& crate::game::colors::has_colors(g.entities.core@[k].color, big_cell_center(k), big_cell_center(k))
    }
    &&& forall|k: int| #![trigger g.entities.core@[k]] 6 <= k < 12 ==> {
        let p = layout.medium_positions@[k - 6];
        &&& placed(
            g,
            k,
            0,
            crate::entity::entities::clamp_spec(p.x as int, 0, 9_999_999),
            crate::entity::entities::clamp_spec(p.y as int, 0, 9_999_999),
            10_000 * RATIO_MASS,
        )
        &&& g.entities.core@[k].color == layout.medium_colors@[k - 6]
        &&& !g.entities.core@[k].characteristics.killer
    }
    &&& placed(g, 12, 1, 4_999_999, 4_999_999, 10 * RATIO_MASS)
    &&& same_characteristics(g.entities.core@[12].characteristics, g.settings.local_player_characteristics)
}

fn big_cell_color(k: usize) -> (c: crate::entity::EntityColor)
    requires
        k < 6,
    ensures
        crate::game::colors::has_colors(c, big_cell_center(k as int), big_cell_center(k as int)),
{
    let rgb: [u8; 3] = if k == 0 {
        [240, 15, 15]
    } else if k == 1 {
        [240, 15, 240]
    } else if k == 2 {
        [15, 15, 240]
    } else if k == 3 {
        [15, 240, 240]
    } else if k == 4 {
        [15, 240, 15]
    } else {
        [240, 240, 15]
    };
    let c = crate::entity::EntityColor { center: [rgb[0], rgb[1], rgb[2], 255], edge: [rgb[0], rgb[1], rgb[2], 255] };
    assert(c.center@ =~= big_cell_center(k as int));
    assert(c.edge@ =~= big_cell_center(k as int));
    c
}

fn copy_palette(v: &Vec<crate::entity::EntityColor>) -> (w: Vec<crate::entity::EntityColor>)
    ensures
        w@ == v@,
{
    let mut w: Vec<crate::entity::EntityColor> = Vec::new();
    let mut i: usize = 0;
    while i < v.len()
        invariant
            i <= v@.len(),
            w@ == v@.take(i as int),
        decreases v@.len() - i,
    {
        w.push(v[i]);
        proof {
            assert(v@.take(i as int + 1) =~= v@.take(i as int).push(v@[i as int]));
        }
        i = i + 1;
    }
    assert(v@.take(v@.len() as int) =~= v@);
    w
}


/// The names of the premade maps, told apart by their first letter and
/// their length.
proof fn lemma_map_names_differ()
    ensures
        "definitive"@.len() == 10 && "definitive"@[0] == 'd',
        "mona lisa"@.len() == 9 && "mona lisa"@[0] == 'm',
        "exponential extreme"@.len() == 19 && "exponential extreme"@[0] == 'e',
        "paint"@.len() == 5 && "paint"@[0] == 'p',
        "example"@.len() == 7 && "example"@[0] == 'e',
        "particles"@.len() == 9 && "particles"@[0] == 'p',
        "classic"@.len() == 7 && "classic"@[0] == 'c',
        "trail"@.len() == 5 && "trail"@[0] == 't',
        "collisions"@.len() == 10 && "collisions"@[0] == 'c',
        "black hole"@.len() == 10 && "black hole"@[0] == 'b',
        "autonomous"@.len() == 10 && "autonomous"@[0] == 'a',
        "gravity"@.len() == 7 && "gravity"@[0] == 'g',
{
    reveal_strlit("definitive");
    reveal_strlit("mona lisa");
    reveal_strlit("exponential extreme");
    reveal_strlit("paint");
    reveal_strlit("example");
    reveal_strlit("particles");
    reveal_strlit("classic");
    reveal_strlit("trail");
    reveal_strlit("collisions");
    reveal_strlit("black hole");
    reveal_strlit("autonomous");
    reveal_strlit("gravity");
}

/// `s` was made from default settings by `made_from`.
pub open spec fn from_defaults(s: Settings, made_from: spec_fn(Settings, Settings) -> bool) -> bool {
    exists|d: Settings| #[trigger] default_settings(d) && made_from(s, d)
}

/// Clears the game and builds the premade map of that name (see
/// `premade_name`); the definitive and mona lisa maps take what they need
/// from `layout`. Any other name leaves the cleared game, and the answer
/// says whether the name was known.
pub fn create_premade_map(game: &mut Game, name: &str, layout: &PremadeLayout) -> (known: bool)
    requires
        old(game).wf(),
        old(game).entities.main_ptrs@.len() + 801 < usize::MAX,
        old(game).id_generator.next + 801 < usize::MAX,
        name@ == "definitive"@ ==> layout.complete(),
        name@ == "mona lisa"@ ==> {
            &&& layout.picture_fits()
            &&& old(game).entities.main_ptrs@.len() + 1 + layout.picture@.len() < usize::MAX
            &&& old(game).id_generator.next + 1 + layout.picture@.len() < usize::MAX
        },
    ensures
        final(game).wf(),
        known <==> premade_name(name@),
        !known ==> {
            &&& default_settings(final(game).settings)
            &&& final(game).map.size == (Size2D { width: 100, height: 100 })
            &&& final(game).players@.len() == 0
            &&& final(game).entities.core@.len() == 0
        },
        name@ == "definitive"@ ==> definitive_made(*final(game), *layout) && from_defaults(final(game).settings, |s: Settings, d: Settings| definitive_settings(s, d)),
        name@ == "mona lisa"@ ==> mona_lisa_made(*final(game), *layout) && from_defaults(final(game).settings, |s: Settings, d: Settings| settings_but_cap(s, d)),
        name@ == "exponential extreme"@ ==> exponential_extreme_made(*final(game)) && from_defaults(final(game).settings, |s: Settings, d: Settings| settings_but_cap(s, d)),
        name@ == "paint"@ ==> paint_made(*final(game)) && from_defaults(final(game).settings, |s: Settings, d: Settings| paint_settings(s, d)),
        name@ == "example"@ ==> example_made(*final(game)) && from_defaults(final(game).settings, |s: Settings, d: Settings| settings_but_cap(s, d)),
        name@ == "particles"@ ==> particles_made(*final(game)) && from_defaults(final(game).settings, |s: Settings, d: Settings| particles_settings(s, d)),
        name@ == "classic"@ ==> classic_made(*final(game)) && from_defaults(final(game).settings, |s: Settings, d: Settings| settings_but_spawning(s, d)),
        name@ == "trail"@ ==> trail_made(*final(game)) && from_defaults(final(game).settings, |s: Settings, d: Settings| settings_but_cap(s, d)),
        name@ == "collisions"@ ==> collisions_made(*final(game)) && from_defaults(final(game).settings, |s: Settings, d: Settings| collisions_settings(s, d)),
        name@ == "black hole"@ ==> black_hole_made(*final(game)) && from_defaults(final(game).settings, |s: Settings, d: Settings| settings_but_spawning(s, d)),
        name@ == "autonomous"@ ==> autonomous_made(*final(game)) && from_defaults(final(game).settings, |s: Settings, d: Settings| autonomous_settings(s, d)),
        name@ == "gravity"@ ==> gravity_made(*final(game)) && from_defaults(final(game).settings, |s: Settings, d: Settings| gravity_settings(s, d)),
{
    proof {
        lemma_map_names_differ();
    }
    game.clear();
    let ghost cleared = game.settings;
    let asked = name.to_owned();
    let known = if asked == "definitive".to_owned() {
        map_definitive::create(game, layout);
        true
    } else if asked == "mona lisa".to_owned() {
        map_mona_lisa::create(game, layout);
        true
    } else if asked == "exponential extreme".to_owned() {
        map_exponential_extreme::create(game);
        true
    } else if asked == "paint".to_owned() {
        map_paint::create(game);
        true
    } else if asked == "example".to_owned() {
        map_example::create(game);
        true
    } else if asked == "particles".to_owned() {
        map_particles::create(game);
        true
    } else if asked == "classic".to_owned() {
        map_classic::create(game);
        true
    } else if asked == "trail".to_owned() {
        map_trail::create(game);
        true
    } else if asked == "collisions".to_owned() {
        map_collisions::create(game);
        true
    } else if asked == "black hole".to_owned() {
        map_black_hole::create(game);
        true
    } else if asked == "autonomous".to_owned() {
        map_autonomous::create(game);
        true
    } else if asked == "gravity".to_owned() {
        map_gravity::create(game);
        true
    } else {
        false
    };
    proof {
        assert(default_settings(cleared));
    }
    known
}

} // verus!
