use vstd::prelude::*;
use crate::entity::EntityCharacteristics;
use crate::entity::EntityInfo;
use crate::entity::EntityTimer;
use crate::entity::RATIO_MASS;
use crate::game::Game;
use crate::geometry::Point2D;
use crate::geometry::Size2D;
use crate::entity::same_characteristics;
use super::{
    settings_but_cap, placed, set_empty_map, helper_base, cleared_with_room, premade_players_bounded, PremadeLayout,
    picture_cell, mona_lisa_made,
};

verus! {

/// Builds the "mona lisa" map on a cleared game from the decoded picture
/// of `layout` (see `mona_lisa_made`).
pub fn create(game: &mut Game, layout: &PremadeLayout)
    requires
        cleared_with_room(*old(game), 1 + layout.picture@.len() as int),
        layout.picture_fits(),
    ensures
        mona_lisa_made(*final(game), *layout),
        settings_but_cap(final(game).settings, old(game).settings),
{
    let ghost g0 = *old(game);
    set_empty_map(game, Size2D { width: 40, height: 65 });
    helper_base(game);
    game.settings.local_player_characteristics.killer = true;
    game.settings.local_player_characteristics.mass_min = RATIO_MASS;
    game.settings.local_player_characteristics.mass_max = RATIO_MASS * 100;
    let info = EntityInfo {
        player: 1,
        position: Point2D { x: 200_000, y: 625_000 },
        mass: RATIO_MASS * 100,
        color: game.players[1].cell_default_color,
        texture: game.players[1].cell_default_texture,
        timer: EntityTimer::default(),
        characteristics: game.settings.local_player_characteristics.duplicate(),
    };
    game.new_entity(info);
    game.settings.max_cells_spawn = 0;
    let n = layout.picture.len();
    let w = layout.picture_width;
    let mut k: usize = 0;
    let ghost s_loop = game.settings;
    while k < n
        invariant
            game.settings == s_loop,
            k <= n,
            n == layout.picture@.len(),
            w == layout.picture_width,
            layout.picture_fits(),
            game.wf(),
            game.map.size == (Size2D { width: 40, height: 65 }),
            premade_players_bounded(*game, RATIO_MASS as int, 100 * RATIO_MASS),
            game.settings.max_cells_spawn == 0,
            game.entities.core@.len() == 1 + k,
            game.entities.main_ptrs@.len() == g0.entities.main_ptrs@.len() + 1 + k,
            game.id_generator.next <= g0.id_generator.next + 1 + k,
            g0.entities.main_ptrs@.len() + 1 + n < usize::MAX,
            g0.id_generator.next + 1 + n < usize::MAX,
            placed(*game, 0, 1, 200_000, 625_000, 100 * RATIO_MASS),
            same_characteristics(game.entities.core@[0].characteristics, game.settings.local_player_characteristics),
            forall|j: int| #![trigger game.entities.core@[j]] 1 <= j < 1 + k ==> {
                let (x, y) = picture_cell(j - 1, w as int);
                &&& placed(*game, j, 0, x, y, RATIO_MASS as int)
                &&& game.entities.core@[j].color == layout.picture@[j - 1]
                &&& !game.entities.core@[j].characteristics.killer
            },
        decreases n - k,
    {
        proof {
            vstd::arithmetic::div_mod::lemma_div_is_ordered(k as int, n as int, w as int);
        }
        let column = k % w;
        let row = k / w;
        assert(column * 1_000 <= i32::MAX && row * 1_000 <= i32::MAX) by (nonlinear_arith)
            requires
                column < w,
                w * 1_000 <= i32::MAX,
                row <= n as int / w as int,
                (n as int / w as int) * 1_000 <= i32::MAX,
        ;
        let position = Point2D { x: column as i32 * 1_000, y: row as i32 * 1_000 };
        let ghost before = *game;
        game.new_entity(EntityInfo {
            player: 0,
            position,
            mass: RATIO_MASS,
            color: layout.picture[k],
            texture: 0,
            timer: EntityTimer::default(),
            characteristics: EntityCharacteristics::default(),
        });
        proof {
            assert forall|j: int| #![trigger game.entities.core@[j]] 1 <= j < 2 + k implies {
                let (x, y) = picture_cell(j - 1, w as int);
                &&& placed(*game, j, 0, x, y, RATIO_MASS as int)
                &&& game.entities.core@[j].color == layout.picture@[j - 1]
                &&& !game.entities.core@[j].characteristics.killer
            } by {
                if j < 1 + k {
                    assert(before.entities.core@[j] == game.entities.core@[j]);
                }
            }
        }
        k = k + 1;
    }
}

} // verus!
