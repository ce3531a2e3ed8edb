use vstd::prelude::*;
use crate::entity::RATIO_MASS;
use crate::game::Game;
use crate::geometry::Point2D;
use crate::geometry::Size2D;
use super::{autonomous_settings, set_empty_map, helper_base, helper_new_entity_location, cleared_with_room, autonomous_made};

verus! {

/// Builds the "autonomous" map on a cleared game (see `autonomous_made`).
pub fn create(game: &mut Game)
    requires
        cleared_with_room(*old(game), 1),
    ensures
        autonomous_made(*final(game)),
        autonomous_settings(final(game).settings, old(game).settings),
{
    set_empty_map(game, Size2D { width: 100, height: 100 });
    helper_base(game);
    game.settings.max_cells_spawn = 20_000;
    game.settings.local_player_food_settings.mass_self_added = -RATIO_MASS;
    let center = Point2D { x: game.map.size.width * game.map.size_field / 2 - 1, y: game.map.size.height * game.map.size_field / 2 - 1 };
    helper_new_entity_location(game, center);
}

} // verus!
