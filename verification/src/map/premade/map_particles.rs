use vstd::prelude::*;
use crate::entity::DistanceRatio;
use crate::entity::EntityCharacteristics;
use crate::entity::EntityGravityInfo;
use crate::entity::OnDeathEffect;
use crate::entity::RATIO_MASS;
use crate::game::Game;
use crate::game::colors::default_color_uniform;
use crate::geometry::Point2D;
use crate::geometry::Size2D;
use crate::entity::same_characteristics;
use super::{particles_settings, set_empty_map, helper_base, helper_new_entity_location, cleared_with_room, scatter, particles_made};

verus! {

/// Builds the "particles" map on a cleared game (see `particles_made`).
pub fn create(game: &mut Game)
    requires
        cleared_with_room(*old(game), 4),
    ensures
        particles_made(*final(game)),
        particles_settings(final(game).settings, old(game).settings),
{
    set_empty_map(game, Size2D { width: 100, height: 100 });
    game.settings.max_cells_spawn = 20_000;
    game.settings.auto_spawn.characteristics.inertia = 500;
    game.settings.auto_spawn.color = crate::game::settings::AutoSpawnEntityColor::Custom(default_color_uniform()[14]);
    helper_base(game);
    game.settings.local_player_characteristics.mass_min = RATIO_MASS;
    game.settings.local_player_characteristics.mass_max = RATIO_MASS;
    game.settings.local_player_characteristics.inertia = 20;
    game.settings.max_split = 1;
    helper_new_entity_location(game, Point2D { x: 0, y: 0 });
    let mut c = EntityCharacteristics::default();
    c.killer = false;
    c.affected_by_gravity = true;
    c.invincible = true;
    c.gravity = Some(EntityGravityInfo { distance_ratio: DistanceRatio::Squared });
    c.on_death = Some(OnDeathEffect::Split(8));
    c.mass_max = RATIO_MASS * 100_000;
    c.throw_entity = None;
    c.inertia = 10_000;
    let ghost g1 = *game;
    scatter(game, 3, RATIO_MASS * 200, &c, default_color_uniform()[0], 0);
    proof {
        assert(g1.map.size.width * g1.map.size_field == 1_000_000) by (nonlinear_arith)
            requires
                g1.map.size.width == 100,
                g1.map.size_field == 10_000,
        ;
        assert(g1.map.size.height * g1.map.size_field == 1_000_000) by (nonlinear_arith)
            requires
                g1.map.size.height == 100,
                g1.map.size_field == 10_000,
        ;
        assert(game.entities.core@[0] == g1.entities.core@[0]);
        assert forall|j: int| #![trigger game.entities.core@[j]] 1 <= j < 4 implies same_characteristics(
            game.entities.core@[j].characteristics,
            c,
        ) by {}
    }
}

} // verus!
