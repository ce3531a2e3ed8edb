use vstd::prelude::*;
use crate::entity::EntityCharacteristics;
use crate::entity::EntityInfo;
use crate::entity::EntityTimer;
use crate::entity::IntRange;
use crate::entity::OnDeathEffect;
use crate::entity::RATIO_MASS;
use crate::entity::ThrowEntityInfo;
use crate::entity::ThrownEntityCharacteristics;
use crate::entity::ThrownEntityColor;
use crate::entity::ThrownEntityTexture;
use crate::game::Game;
use crate::game::colors::default_color;
use crate::game::colors::default_color_random;
use crate::geometry::Point2D;
use crate::geometry::Size2D;
use crate::entity::same_characteristics;
use super::{settings_but_cap, placed, set_empty_map, helper_base, helper_new_entity_location, texture_range, cleared_with_room, premade_players, example_slot, example_thrower, example_made, example_thrower_characteristics};

verus! {

/// Builds the "example" map on a cleared game (see `example_made`).
pub fn create(game: &mut Game)
    requires
        cleared_with_room(*old(game), 10),
    ensures
        example_made(*final(game)),
        settings_but_cap(final(game).settings, old(game).settings),
{
    let ghost g0 = *old(game);
    set_empty_map(game, Size2D { width: 100, height: 100 });
    helper_base(game);
    helper_new_entity_location(game, Point2D { x: 0, y: 0 });
    game.settings.max_cells_spawn = 20_000;
    let w: i32 = game.map.size.width * game.map.size_field;
    let h: i32 = game.map.size.height * game.map.size_field;
    let colors = default_color();
    let mut k: usize = 0;
    let ghost s_loop1 = game.settings;
    while k < 8
        invariant
            game.settings == s_loop1,
            k <= 8,
            w == 1_000_000,
            h == 1_000_000,
            colors@.len() == 15,
            game.wf(),
            game.map.size == (Size2D { width: 100, height: 100 }),
            premade_players(*game),
            game.settings.max_cells_spawn == 20_000,
            game.entities.core@.len() == 1 + k,
            game.entities.main_ptrs@.len() == g0.entities.main_ptrs@.len() + 1 + k,
            game.id_generator.next <= g0.id_generator.next + 1 + k,
            g0.entities.main_ptrs@.len() + 10 < usize::MAX,
            g0.id_generator.next + 10 < usize::MAX,
            placed(*game, 0, 1, 0, 0, 10 * RATIO_MASS),
            same_characteristics(game.entities.core@[0].characteristics, game.settings.local_player_characteristics),
            forall|j: int| #![trigger game.entities.core@[j]] 1 <= j < 1 + k ==> {
                &&& placed(*game, j, 0, example_slot(j - 1).0, example_slot(j - 1).1, 200 * RATIO_MASS)
                &&& example_thrower(game.entities.core@[j].characteristics)
            },
        decreases 8 - k,
    {
        let slot = if k < 4 { k } else { k + 1 };
        let x = (slot / 3) as i32;
        let y = (slot % 3) as i32;
        assert(x * w / 3 + w / 6 <= 1_000_000 && y * h / 3 + h / 6 <= 1_000_000) by (nonlinear_arith)
            requires
                w == 1_000_000,
                h == 1_000_000,
                0 <= x <= 2,
                0 <= y <= 2,
        ;
        let position = Point2D { x: x * w / 3 + w / 6, y: y * h / 3 + h / 6 };
        proof {
            assert(position.x == example_slot(k as int).0);
            assert(position.y == example_slot(k as int).1);
        }
        let info = EntityInfo {
            player: 0,
            position,
            mass: RATIO_MASS * 50,
            color: colors[1],
            texture: 1,
            timer: EntityTimer::default(),
            characteristics: example_thrower_characteristics(),
        };
        let ghost before = *game;
        game.new_entity(info);
        proof {
            assert forall|j: int| #![trigger game.entities.core@[j]] 1 <= j < 2 + k implies {
                &&& placed(*game, j, 0, example_slot(j - 1).0, example_slot(j - 1).1, 200 * RATIO_MASS)
                &&& example_thrower(game.entities.core@[j].characteristics)
            } by {
                if j < 1 + k {
                    assert(before.entities.core@[j] == game.entities.core@[j]);
                }
            }
        }
        k = k + 1;
    }
    let mut food = EntityCharacteristics::default();
    food.killer = true;
    food.collide = false;
    food.mass_min = RATIO_MASS;
    food.mass_max = RATIO_MASS * 20;
    food.throw_entity = None;
    food.inertia = 100;
    let mut c = EntityCharacteristics::default();
    c.killer = true;
    c.collide = false;
    c.mass_min = RATIO_MASS * 1_000;
    c.mass_max = RATIO_MASS * 100_000;
    c.on_death = Some(OnDeathEffect::Split(64));
    c.throw_entity = Some(ThrowEntityInfo {
        mass_minimum_to_throw: RATIO_MASS * 5_000,
        mass_self_added: -RATIO_MASS / 2,
        mass_entity_thrown: RATIO_MASS,
        power: IntRange { start: 500, end: 10_000 },
        color: ThrownEntityColor::Random(default_color_random()),
        texture: ThrownEntityTexture::Random(texture_range()),
        timer_entity_thrown: EntityTimer::default(),
        characteristics_entity_thrown: ThrownEntityCharacteristics::Custom(Box::new(food)),
    });
    let ghost before = *game;
    game.new_entity(EntityInfo {
        player: 0,
        position: Point2D { x: w / 2, y: h / 2 },
        mass: RATIO_MASS * 5_000,
        color: colors[3],
        texture: 3,
        timer: EntityTimer::default(),
        characteristics: c,
    });
    proof {
        assert forall|j: int| #![trigger game.entities.core@[j]] 1 <= j < 9 implies {
            &&& placed(*game, j, 0, example_slot(j - 1).0, example_slot(j - 1).1, 200 * RATIO_MASS)
            &&& example_thrower(game.entities.core@[j].characteristics)
        } by {
            assert(before.entities.core@[j] == game.entities.core@[j]);
        }
        assert(before.entities.core@[0] == game.entities.core@[0]);
    }
}

} // verus!
