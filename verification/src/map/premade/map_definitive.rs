use vstd::prelude::*;
use crate::entity::EntityCharacteristics;
use crate::entity::EntityInfo;
use crate::entity::EntityTimer;
use crate::entity::IntRange;
use crate::entity::RATIO_MASS;
use crate::entity::ThrowEntityInfo;
use crate::entity::ThrownEntityCharacteristics;
use crate::entity::ThrownEntityColor;
use crate::entity::ThrownEntityTexture;
use crate::game::Game;
use crate::geometry::Point2D;
use crate::geometry::Size2D;
use super::{definitive_settings, placed, set_empty_map, helper_base, helper_new_entity_location, cleared_with_room, premade_players, PremadeLayout, big_cell_center, big_cell, big_cell_at, definitive_made, big_cell_color, copy_palette};

verus! {

/// Builds the "definitive" map on a cleared game from the real-number
/// parts of `layout` (see `definitive_made`).
pub fn create(game: &mut Game, layout: &PremadeLayout)
    requires
        cleared_with_room(*old(game), 13),
        layout.complete(),
    ensures
        definitive_made(*final(game), *layout),
        definitive_settings(final(game).settings, old(game).settings),
{
    let ghost g0 = *old(game);
    helper_base(game);
    set_empty_map(game, Size2D { width: 1_000, height: 1_000 });
    game.settings.max_cells_spawn = 100_000;
    game.settings.auto_spawn.amount = 1_000;
    game.settings.auto_spawn.color = crate::game::settings::AutoSpawnEntityColor::Random(copy_palette(&layout.spawn_palette));
    game.settings.special = true;
    let mut k: usize = 0;
    let ghost s_loop1 = game.settings;
    while k < 6
        invariant
            game.settings == s_loop1,
            k <= 6,
            layout.complete(),
            game.wf(),
            game.map.size == (Size2D { width: 1_000, height: 1_000 }),
            premade_players(*game),
            game.settings.max_cells_spawn == 100_000,
            game.settings.auto_spawn.amount == 1_000,
            game.settings.auto_spawn.color matches crate::game::settings::AutoSpawnEntityColor::Random(v) && v@ == layout.spawn_palette@,
            game.settings.special,
            game.entities.core@.len() == k,
            game.entities.main_ptrs@.len() == g0.entities.main_ptrs@.len() + k,
            game.id_generator.next <= g0.id_generator.next + k,
            g0.entities.main_ptrs@.len() + 13 < usize::MAX,
            g0.id_generator.next + 13 < usize::MAX,
            forall|j: int| #![trigger game.entities.core@[j]] 0 <= j < k ==> {
                &&& placed(*game, j, 0, big_cell_at(*layout, j).0, big_cell_at(*layout, j).1, 100_000 * RATIO_MASS)
                &&& big_cell(game.entities.core@[j].characteristics, layout.big_palettes@[j]@)
                &&& crate::game::colors::has_colors(game.entities.core@[j].color, big_cell_center(j), big_cell_center(j))
            },
        decreases 6 - k,
    {
        let position = if k == 0 { Point2D { x: 5_000_000, y: 1_000_000 } } else { layout.big_positions[k - 1] };
        let mut c = EntityCharacteristics::default();
        c.killer = true;
        c.mergeable = true;
        c.affected_by_gravity = false;
        c.bounce = true;
        c.can_split_on_kill = false;
        c.invincible = false;
        c.inertia = 10;
        c.mass_min = RATIO_MASS * 100_000;
        c.mass_max = RATIO_MASS * 1_000_000;
        c.gravity = None;
        c.throw_entity = Some(ThrowEntityInfo {
            mass_minimum_to_throw: RATIO_MASS * 100_001,
            mass_self_added: -RATIO_MASS / 2,
            mass_entity_thrown: RATIO_MASS,
            power: IntRange { start: 500, end: 10_000 },
            color: ThrownEntityColor::Random(copy_palette(&layout.big_palettes[k])),
            texture: ThrownEntityTexture::Same,
            timer_entity_thrown: EntityTimer::default(),
            characteristics_entity_thrown: ThrownEntityCharacteristics::Custom(Box::new(EntityCharacteristics::default())),
        });
        let ghost before = *game;
        game.new_entity(EntityInfo {
            player: 0,
            position,
            mass: RATIO_MASS * 100_000,
            color: big_cell_color(k),
            texture: 0,
            timer: EntityTimer::default(),
            characteristics: c,
        });
        proof {
            assert forall|j: int| #![trigger game.entities.core@[j]] 0 <= j < k + 1 implies {
                &&& placed(*game, j, 0, big_cell_at(*layout, j).0, big_cell_at(*layout, j).1, 100_000 * RATIO_MASS)
                &&& big_cell(game.entities.core@[j].characteristics, layout.big_palettes@[j]@)
                &&& crate::game::colors::has_colors(game.entities.core@[j].color, big_cell_center(j), big_cell_center(j))
            } by {
                if j < k {
                    assert(before.entities.core@[j] == game.entities.core@[j]);
                }
            }
        }
        k = k + 1;
    }
    let mut m: usize = 0;
    let ghost s_loop2 = game.settings;
    while m < 6
        invariant
            game.settings == s_loop2,
            m <= 6,
            layout.complete(),
            game.wf(),
            game.map.size == (Size2D { width: 1_000, height: 1_000 }),
            premade_players(*game),
            game.settings.max_cells_spawn == 100_000,
            game.settings.auto_spawn.amount == 1_000,
            game.settings.auto_spawn.color matches crate::game::settings::AutoSpawnEntityColor::Random(v) && v@ == layout.spawn_palette@,
            game.settings.special,
            game.entities.core@.len() == 6 + m,
            game.entities.main_ptrs@.len() == g0.entities.main_ptrs@.len() + 6 + m,
            game.id_generator.next <= g0.id_generator.next + 6 + m,
            g0.entities.main_ptrs@.len() + 13 < usize::MAX,
            g0.id_generator.next + 13 < usize::MAX,
            forall|j: int| #![trigger game.entities.core@[j]] 0 <= j < 6 ==> {
                &&& placed(*game, j, 0, big_cell_at(*layout, j).0, big_cell_at(*layout, j).1, 100_000 * RATIO_MASS)
                &&& big_cell(game.entities.core@[j].characteristics, layout.big_palettes@[j]@)
                &&& crate::game::colors::has_colors(game.entities.core@[j].color, big_cell_center(j), big_cell_center(j))
            },
            forall|j: int| #![trigger game.entities.core@[j]] 6 <= j < 6 + m ==> {
                let p = layout.medium_positions@[j - 6];
                &&& placed(
                    *game,
                    j,
                    0,
                    crate::entity::entities::clamp_spec(p.x as int, 0, 9_999_999),
                    crate::entity::entities::clamp_spec(p.y as int, 0, 9_999_999),
                    10_000 * RATIO_MASS,
                )
                &&& game.entities.core@[j].color == layout.medium_colors@[j - 6]
                &&& !game.entities.core@[j].characteristics.killer
            },
        decreases 6 - m,
    {
        let ghost before = *game;
        game.new_entity(EntityInfo {
            player: 0,
            position: layout.medium_positions[m],
            mass: RATIO_MASS * 10_000,
            color: layout.medium_colors[m],
            texture: 0,
            timer: EntityTimer::default(),
            characteristics: EntityCharacteristics::default(),
        });
        proof {
            assert forall|j: int| #![trigger game.entities.core@[j]] 0 <= j < 6 implies {
                &&& placed(*game, j, 0, big_cell_at(*layout, j).0, big_cell_at(*layout, j).1, 100_000 * RATIO_MASS)
                &&& big_cell(game.entities.core@[j].characteristics, layout.big_palettes@[j]@)
                &&& crate::game::colors::has_colors(game.entities.core@[j].color, big_cell_center(j), big_cell_center(j))
            } by {
                assert(before.entities.core@[j] == game.entities.core@[j]);
            }
            assert forall|j: int| #![trigger game.entities.core@[j]] 6 <= j < 6 + m + 1 implies {
                let p = layout.medium_positions@[j - 6];
                &&& placed(
                    *game,
                    j,
                    0,
                    crate::entity::entities::clamp_spec(p.x as int, 0, 9_999_999),
                    crate::entity::entities::clamp_spec(p.y as int, 0, 9_999_999),
                    10_000 * RATIO_MASS,
                )
                &&& game.entities.core@[j].color == layout.medium_colors@[j - 6]
                &&& !game.entities.core@[j].characteristics.killer
            } by {
                if j < 6 + m {
                    assert(before.entities.core@[j] == game.entities.core@[j]);
                }
            }
        }
        m = m + 1;
    }
    let center = Point2D { x: game.map.size.width * game.map.size_field / 2 - 1, y: game.map.size.height * game.map.size_field / 2 - 1 };
    let ghost before = *game;
    helper_new_entity_location(game, center);
    proof {
        assert forall|j: int| #![trigger game.entities.core@[j]] 0 <= j < 6 implies {
            &&& placed(*game, j, 0, big_cell_at(*layout, j).0, big_cell_at(*layout, j).1, 100_000 * RATIO_MASS)
            &&& big_cell(game.entities.core@[j].characteristics, layout.big_palettes@[j]@)
            &&& crate::game::colors::has_colors(game.entities.core@[j].color, big_cell_center(j), big_cell_center(j))
        } by {
            assert(before.entities.core@[j] == game.entities.core@[j]);
        }
        assert forall|j: int| #![trigger game.entities.core@[j]] 6 <= j < 12 implies {
            let p = layout.medium_positions@[j - 6];
            &&& placed(
                *game,
                j,
                0,
                crate::entity::entities::clamp_spec(p.x as int, 0, 9_999_999),
                crate::entity::entities::clamp_spec(p.y as int, 0, 9_999_999),
                10_000 * RATIO_MASS,
            )
            &&& game.entities.core@[j].color == layout.medium_colors@[j - 6]
            &&& !game.entities.core@[j].characteristics.killer
        } by {
            assert(before.entities.core@[j] == game.entities.core@[j]);
        }
    }
}

} // verus!
