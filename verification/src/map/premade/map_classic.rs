use vstd::prelude::*;
use crate::entity::EntityCharacteristics;
use crate::entity::OnDeathEffect;
use crate::entity::RATIO_MASS;
use crate::game::Game;
use crate::game::colors::default_color;
use crate::geometry::Point2D;
use crate::geometry::Size2D;
use crate::entity::same_characteristics;
use super::{settings_but_spawning, premade_thrower, set_empty_map, helper_base, helper_new_entity_location, premade_thrower_characteristics, cleared_with_room, classic_food, scattered, scatter, classic_made, lemma_same_thrower};

verus! {

/// Builds the "classic" map on a cleared game (see `classic_made`).
pub fn create(game: &mut Game)
    requires
        cleared_with_room(*old(game), 126),
    ensures
        classic_made(*final(game)),
        settings_but_spawning(final(game).settings, old(game).settings),
{
    set_empty_map(game, Size2D { width: 200, height: 200 });
    helper_base(game);
    let center = Point2D { x: game.map.size.width * game.map.size_field / 2 - 1, y: game.map.size.height * game.map.size_field / 2 - 1 };
    helper_new_entity_location(game, center);
    game.settings.max_cells_spawn = 100_000;
    game.settings.auto_spawn.amount = 500;
    let mut food = EntityCharacteristics::default();
    food.on_death = Some(OnDeathEffect::Split(8));
    let colors = default_color();
    let ghost g1 = *game;
    scatter(game, 100, RATIO_MASS * 100, &food, colors[4], 10);
    let ghost g2 = *game;
    let thrower = premade_thrower_characteristics();
    scatter(game, 25, RATIO_MASS * 200, &thrower, colors[10], 1);
    proof {
        assert(g2.map.size.width * g2.map.size_field == 2_000_000) by (nonlinear_arith)
            requires
                g2.map.size.width == 200,
                g2.map.size_field == 10_000,
        ;
        assert(g2.map.size.height * g2.map.size_field == 2_000_000) by (nonlinear_arith)
            requires
                g2.map.size.height == 200,
                g2.map.size_field == 10_000,
        ;
        assert(g1.map.size.width * g1.map.size_field == 2_000_000) by (nonlinear_arith)
            requires
                g1.map.size.width == 200,
                g1.map.size_field == 10_000,
        ;
        assert(g1.map.size.height * g1.map.size_field == 2_000_000) by (nonlinear_arith)
            requires
                g1.map.size.height == 200,
                g1.map.size_field == 10_000,
        ;
        assert forall|j: int| #![trigger game.entities.core@[j]] 1 <= j < 101 implies {
            &&& scattered(*game, j, 2_000_000, 2_000_000, 100 * RATIO_MASS)
            &&& classic_food(game.entities.core@[j].characteristics)
        } by {
            assert(g2.entities.core@[j] == game.entities.core@[j]);
            assert(scattered(g2, j, 2_000_000, 2_000_000, 100 * RATIO_MASS));
            assert(same_characteristics(g2.entities.core@[j].characteristics, food));
        }
        assert forall|j: int| #![trigger game.entities.core@[j]] 101 <= j < 126 implies premade_thrower(
            game.entities.core@[j].characteristics,
        ) by {
            lemma_same_thrower(game.entities.core@[j].characteristics, thrower);
        }
        assert(game.entities.core@[0] == g1.entities.core@[0]);
        assert(g2.entities.core@[0] == g1.entities.core@[0]);
    }
}

} // verus!
