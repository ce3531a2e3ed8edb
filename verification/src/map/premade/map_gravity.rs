use vstd::prelude::*;
use crate::entity::DistanceRatio;
use crate::entity::EntityGravityInfo;
use crate::entity::EntityInfo;
use crate::entity::EntityTimer;
use crate::entity::RATIO_MASS;
use crate::game::Game;
use crate::game::colors::default_color;
use crate::geometry::Point2D;
use crate::geometry::Size2D;
use crate::entity::same_characteristics;
use super::{gravity_settings, placed, premade_thrower, set_empty_map, helper_base, helper_new_entity_location, premade_thrower_characteristics, cleared_with_room, premade_players, gravity_made};

verus! {

/// Builds the "gravity" map on a cleared game (see `gravity_made`).
pub fn create(game: &mut Game)
    requires
        cleared_with_room(*old(game), 11),
    ensures
        gravity_made(*final(game)),
        gravity_settings(final(game).settings, old(game).settings),
{
    let ghost g0 = *old(game);
    set_empty_map(game, Size2D { width: 100, height: 100 });
    game.settings.max_cells_spawn = 20_000;
    helper_base(game);
    game.settings.local_player_characteristics.gravity = Some(EntityGravityInfo { distance_ratio: DistanceRatio::Squared });
    game.settings.max_split = 4;
    let center = Point2D { x: game.map.size.width * game.map.size_field / 2 - 1, y: game.map.size.height * game.map.size_field / 2 - 1 };
    helper_new_entity_location(game, center);
    let w: i32 = game.map.size.width * game.map.size_field;
    let h: i32 = game.map.size.height * game.map.size_field;
    let mut k: usize = 0;
    let ghost s_loop1 = game.settings;
    while k < 10
        invariant
            game.settings == s_loop1,
            k <= 10,
            w == 1_000_000,
            h == 1_000_000,
            game.wf(),
            game.map.size == (Size2D { width: 100, height: 100 }),
            premade_players(*game),
            game.settings.local_player_characteristics.gravity is Some,
            game.settings.max_cells_spawn == 20_000,
            game.settings.max_split == 4,
            game.entities.core@.len() == 1 + k,
            game.entities.main_ptrs@.len() == g0.entities.main_ptrs@.len() + 1 + k,
            game.id_generator.next <= g0.id_generator.next + 1 + k,
            g0.entities.main_ptrs@.len() + 11 < usize::MAX,
            g0.id_generator.next + 11 < usize::MAX,
            placed(*game, 0, 1, 499_999, 499_999, 10 * RATIO_MASS),
            same_characteristics(game.entities.core@[0].characteristics, game.settings.local_player_characteristics),
            forall|j: int| #![trigger game.entities.core@[j]] 1 <= j < 1 + k ==> {
                &&& game.entities.core@[j].player == 0
                &&& 0 <= game.entities.position@[j].x < 1_000_000
                &&& 0 <= game.entities.position@[j].y < 1_000_000
                &&& game.entities.mass@[j] == 200 * RATIO_MASS
                &&& premade_thrower(game.entities.core@[j].characteristics)
            },
        decreases 10 - k,
    {
        let x = crate::random::random_in(0, (w - 1) as i64);
        let y = crate::random::random_in(0, (h - 1) as i64);
        let info = EntityInfo {
            player: 0,
            position: Point2D { x: x as i32, y: y as i32 },
            mass: RATIO_MASS * 200,
            color: default_color()[1],
            texture: 1,
            timer: EntityTimer::default(),
            characteristics: premade_thrower_characteristics(),
        };
        let ghost before = *game;
        game.new_entity(info);
        proof {
            assert forall|j: int| #![trigger game.entities.core@[j]] 1 <= j < 2 + k implies {
                &&& game.entities.core@[j].player == 0
                &&& 0 <= game.entities.position@[j].x < 1_000_000
                &&& 0 <= game.entities.position@[j].y < 1_000_000
                &&& game.entities.mass@[j] == 200 * RATIO_MASS
                &&& premade_thrower(game.entities.core@[j].characteristics)
            } by {
                if j < 1 + k {
                    assert(before.entities.core@[j] == game.entities.core@[j]);
                }
            }
        }
        k = k + 1;
    }
}

} // verus!
