use vstd::prelude::*;
use crate::entity::EntityInfo;
use crate::entity::EntityTimer;
use crate::entity::RATIO_MASS;
use crate::game::Game;
use crate::game::colors::default_color;
use crate::geometry::Point2D;
use crate::geometry::Size2D;
use crate::entity::same_characteristics;
use super::{settings_but_spawning, placed, premade_thrower, black_hole_source, black_hole_ring, set_empty_map, helper_base, helper_new_entity_location, premade_thrower_characteristics, black_hole_characteristics, cleared_with_room, premade_players, black_hole_made};

verus! {

/// Builds the "black hole" map on a cleared game (see `black_hole_made`).
pub fn create(game: &mut Game)
    requires
        cleared_with_room(*old(game), 26),
    ensures
        black_hole_made(*final(game)),
        settings_but_spawning(final(game).settings, old(game).settings),
{
    let ghost g0 = *old(game);
    set_empty_map(game, Size2D { width: 200, height: 200 });
    helper_base(game);
    helper_new_entity_location(game, Point2D { x: 0, y: 0 });
    game.settings.max_cells_spawn = 20_000;
    game.settings.auto_spawn.amount = 100;
    let w: i32 = game.map.size.width * game.map.size_field;
    let h: i32 = game.map.size.height * game.map.size_field;
    game.new_entity(EntityInfo {
        player: 0,
        position: Point2D { x: w / 2, y: h / 2 },
        mass: RATIO_MASS * 200,
        color: default_color()[0],
        texture: 0,
        timer: EntityTimer::default(),
        characteristics: black_hole_characteristics(),
    });
    let mut k: usize = 0;
    let ghost s_loop1 = game.settings;
    while k < 24
        invariant
            game.settings == s_loop1,
            k <= 24,
            w == 2_000_000,
            h == 2_000_000,
            game.wf(),
            game.map.size == (Size2D { width: 200, height: 200 }),
            premade_players(*game),
            game.settings.max_cells_spawn == 20_000,
            game.settings.auto_spawn.amount == 100,
            game.entities.core@.len() == 2 + k,
            game.entities.main_ptrs@.len() == g0.entities.main_ptrs@.len() + 2 + k,
            game.id_generator.next <= g0.id_generator.next + 2 + k,
            g0.entities.main_ptrs@.len() + 26 < usize::MAX,
            g0.id_generator.next + 26 < usize::MAX,
            placed(*game, 0, 1, 0, 0, 10 * RATIO_MASS),
            same_characteristics(game.entities.core@[0].characteristics, game.settings.local_player_characteristics),
            placed(*game, 1, 0, 1_000_000, 1_000_000, 200 * RATIO_MASS),
            black_hole_source(game.entities.core@[1].characteristics),
            forall|j: int| #![trigger game.entities.core@[j]] 2 <= j < 2 + k ==> {
                &&& placed(*game, j, 0, black_hole_ring(j - 2).0, black_hole_ring(j - 2).1, 200 * RATIO_MASS)
                &&& premade_thrower(game.entities.core@[j].characteristics)
            },
        decreases 24 - k,
    {
        let (x, y) = if k < 12 {
            let xi = (k / 2 + 1) as i32;
            assert(w / 7 * xi <= 1_714_284) by (nonlinear_arith)
                requires
                    w == 2_000_000,
                    1 <= xi <= 6,
            ;
            (w / 7 * xi, if k % 2 == 0 { h / 10 } else { h / 10 * 9 })
        } else {
            let j = k - 12;
            assert(j % 6 < 6);
            let yi = (j % 6 + 1) as i32;
            assert(h / 7 * yi <= 1_714_284) by (nonlinear_arith)
                requires
                    h == 2_000_000,
                    1 <= yi <= 6,
            ;
            (if j / 6 == 0 { w / 10 } else { w / 10 * 9 }, h / 7 * yi)
        };
        proof {
            assert(x == black_hole_ring(k as int).0);
            assert(y == black_hole_ring(k as int).1);
        }
        let info = EntityInfo {
            player: 0,
            position: Point2D { x, y },
            mass: RATIO_MASS * 200,
            color: default_color()[1],
            texture: 1,
            timer: EntityTimer::default(),
            characteristics: premade_thrower_characteristics(),
        };
        let ghost before = *game;
        game.new_entity(info);
        proof {
            assert forall|j: int| #![trigger game.entities.core@[j]] 2 <= j < 3 + k implies {
                &&& placed(*game, j, 0, black_hole_ring(j - 2).0, black_hole_ring(j - 2).1, 200 * RATIO_MASS)
                &&& premade_thrower(game.entities.core@[j].characteristics)
            } by {
                if j < 2 + k {
                    assert(before.entities.core@[j] == game.entities.core@[j]);
                }
            }
        }
        k = k + 1;
    }
}

} // verus!
