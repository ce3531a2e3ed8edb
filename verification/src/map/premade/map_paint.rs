use vstd::prelude::*;
use crate::entity::EntityCharacteristics;
use crate::entity::EntityInfo;
use crate::entity::EntityTimer;
use crate::entity::RATIO_MASS;
use crate::entity::ThrownEntityColor;
use crate::entity::ThrownEntityTexture;
use crate::game::Game;
use crate::game::colors::default_color;
use crate::geometry::Point2D;
use crate::geometry::Size2D;
use crate::entity::same_characteristics;
use super::{paint_settings, placed, set_empty_map, helper_base, helper_new_entity_location, cleared_with_room, premade_players_bounded, paint_wall, paint_made};

verus! {

/// Builds the "paint" map on a cleared game (see `paint_made`).
pub fn create(game: &mut Game)
    requires
        cleared_with_room(*old(game), 801),
    ensures
        paint_made(*final(game)),
        paint_settings(final(game).settings, old(game).settings),
{
    let ghost g0 = *old(game);
    set_empty_map(game, Size2D { width: 50, height: 50 });
    helper_base(game);
    game.settings.auto_spawn.amount = 0;
    let colors = default_color();
    game.settings.local_player_food_settings.mass_minimum_to_throw = RATIO_MASS - 1;
    game.settings.local_player_food_settings.mass_self_added = 0;
    game.settings.local_player_food_settings.mass_entity_thrown = RATIO_MASS;
    game.settings.local_player_food_settings.color = ThrownEntityColor::Custom(colors[14]);
    game.settings.local_player_food_settings.texture = ThrownEntityTexture::CustomIndex(14);
    game.settings.local_player_characteristics.mass_min = RATIO_MASS;
    game.settings.local_player_characteristics.mass_max = RATIO_MASS;
    let max = game.map.max();
    helper_new_entity_location(game, Point2D { x: max.width / 2, y: (max.height / 10) * 9 });
    let mut k: usize = 0;
    let ghost s_loop1 = game.settings;
    while k < 800
        invariant
            game.settings == s_loop1,
            k <= 800,
            max.width == 499_999,
            max.height == 499_999,
            colors@.len() == 15,
            game.wf(),
            game.map.size == (Size2D { width: 50, height: 50 }),
            premade_players_bounded(*game, RATIO_MASS as int, RATIO_MASS as int),
            game.settings.auto_spawn.amount == 0,
            game.settings.local_player_food_settings.mass_minimum_to_throw == RATIO_MASS - 1,
            game.settings.local_player_food_settings.mass_self_added == 0,
            game.settings.local_player_food_settings.mass_entity_thrown == RATIO_MASS,
            game.settings.local_player_food_settings.color is Custom,
            game.settings.local_player_food_settings.texture == ThrownEntityTexture::CustomIndex(14),
            game.entities.core@.len() == 1 + k,
            game.entities.main_ptrs@.len() == g0.entities.main_ptrs@.len() + 1 + k,
            game.id_generator.next <= g0.id_generator.next + 1 + k,
            g0.entities.main_ptrs@.len() + 801 < usize::MAX,
            g0.id_generator.next + 801 < usize::MAX,
            placed(*game, 0, 1, 249_999, 449_991, RATIO_MASS as int),
            same_characteristics(game.entities.core@[0].characteristics, game.settings.local_player_characteristics),
            forall|j: int| #![trigger game.entities.core@[j]] 1 <= j < 1 + k ==> {
                &&& placed(*game, j, 0, paint_wall(j - 1).0, paint_wall(j - 1).1, 10 * RATIO_MASS)
                &&& !game.entities.core@[j].characteristics.killer
            },
        decreases 800 - k,
    {
        let step = max.width / 200;
        let (x, y) = if k < 400 {
            let i = (k / 2) as i32;
            assert(step * i <= 499_999) by (nonlinear_arith)
                requires
                    step == 2_499,
                    0 <= i < 200,
            ;
            (step * i, if k % 2 == 0 { 0 } else { max.height })
        } else {
            let j = k - 400;
            assert(j % 200 < 200);
            let i = (j % 200) as i32;
            assert(step * i <= 499_999) by (nonlinear_arith)
                requires
                    step == 2_499,
                    0 <= i < 200,
            ;
            (if j / 200 == 0 { 0 } else { max.width }, step * i)
        };
        proof {
            assert(x == paint_wall(k as int).0);
            assert(y == paint_wall(k as int).1);
        }
        let info = EntityInfo {
            player: 0,
            position: Point2D { x, y },
            mass: RATIO_MASS * 10,
            color: colors[14],
            texture: 0,
            timer: EntityTimer::default(),
            characteristics: EntityCharacteristics::default(),
        };
        let ghost before = *game;
        game.new_entity(info);
        proof {
            assert forall|j: int| #![trigger game.entities.core@[j]] 1 <= j < 2 + k implies {
                &&& placed(*game, j, 0, paint_wall(j - 1).0, paint_wall(j - 1).1, 10 * RATIO_MASS)
                &&& !game.entities.core@[j].characteristics.killer
            } by {
                if j < 1 + k {
                    assert(before.entities.core@[j] == game.entities.core@[j]);
                }
            }
        }
        k = k + 1;
    }
}

} // verus!
