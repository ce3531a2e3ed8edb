use vstd::prelude::*;
use crate::entity::EntityCharacteristics;
use crate::entity::EntityInfo;
use crate::entity::EntityTimer;
use crate::entity::IntRange;
use crate::entity::OnDeathEffect;
use crate::entity::RATIO_MASS;
use crate::entity::ThrowEntityInfo;
use crate::entity::ThrownEntityCharacteristics;
use crate::entity::ThrownEntityColor;
use crate::entity::ThrownEntityTexture;
use crate::game::Game;
use crate::game::colors::default_color;
use crate::game::colors::default_color_random;
use crate::geometry::Point2D;
use crate::geometry::Size2D;
use super::{settings_but_cap, set_empty_map, helper_base, helper_new_entity_location, texture_range, cleared_with_room, exponential_extreme_made};

verus! {

/// Builds the "exponential extreme" map on a cleared game (see
/// `exponential_extreme_made`).
pub fn create(game: &mut Game)
    requires
        cleared_with_room(*old(game), 2),
    ensures
        exponential_extreme_made(*final(game)),
        settings_but_cap(final(game).settings, old(game).settings),
{
    set_empty_map(game, Size2D { width: 100, height: 100 });
    game.settings.max_cells_spawn = 10_000;
    helper_base(game);
    game.settings.local_player_characteristics.mass_max = RATIO_MASS * 50_000;
    let max = game.map.max();
    helper_new_entity_location(game, Point2D { x: max.width / 2 - 100_000, y: max.height / 2 });
    let mut second = EntityCharacteristics::default();
    second.killer = true;
    second.collide = false;
    second.mass_min = RATIO_MASS;
    second.mass_max = RATIO_MASS * 5_000;
    second.throw_entity = Some(ThrowEntityInfo {
        mass_minimum_to_throw: RATIO_MASS * 2,
        mass_self_added: -RATIO_MASS / 2,
        mass_entity_thrown: RATIO_MASS,
        power: IntRange { start: 500, end: 5_000 },
        color: ThrownEntityColor::Random(default_color_random()),
        texture: ThrownEntityTexture::Random(texture_range()),
        timer_entity_thrown: EntityTimer::default(),
        characteristics_entity_thrown: ThrownEntityCharacteristics::Same,
    });
    let mut c = EntityCharacteristics::default();
    c.mass_min = RATIO_MASS * 100;
    c.mass_max = RATIO_MASS * 50_000;
    c.killer = true;
    c.on_death = Some(OnDeathEffect::Split(8));
    c.throw_entity = Some(ThrowEntityInfo {
        mass_minimum_to_throw: RATIO_MASS * 200,
        mass_self_added: -RATIO_MASS / 2,
        mass_entity_thrown: RATIO_MASS,
        power: IntRange { start: 100, end: 1_000 },
        color: ThrownEntityColor::Random(default_color_random()),
        texture: ThrownEntityTexture::Random(texture_range()),
        timer_entity_thrown: EntityTimer::default(),
        characteristics_entity_thrown: ThrownEntityCharacteristics::Custom(Box::new(second)),
    });
    let w: i32 = game.map.size.width * game.map.size_field;
    let h: i32 = game.map.size.height * game.map.size_field;
    game.new_entity(EntityInfo {
        player: 0,
        position: Point2D { x: w / 2, y: h / 2 },
        mass: RATIO_MASS * 500,
        color: default_color()[12],
        texture: 12,
        timer: EntityTimer::default(),
        characteristics: c,
    });
}

} // verus!
