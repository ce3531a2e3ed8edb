use vstd::prelude::*;
use crate::entity::EntityCharacteristics;
use crate::entity::EntityInfo;
use crate::entity::EntityTimer;
use crate::entity::IntRange;
use crate::entity::OnDeathEffect;
use crate::entity::RATIO_MASS;
use crate::entity::ThrowEntityInfo;
use crate::entity::ThrownEntityCharacteristics;
use crate::entity::ThrownEntityColor;
use crate::entity::ThrownEntityTexture;
use crate::game::Game;
use crate::game::colors::default_color;
use crate::game::colors::default_color_random;
use crate::geometry::Point2D;
use crate::geometry::Size2D;
use super::{collisions_settings, set_empty_map, helper_base, helper_new_entity_location, cleared_with_room, collisions_made};

verus! {

/// Builds the "collisions" map on a cleared game (see `collisions_made`).
pub fn create(game: &mut Game)
    requires
        cleared_with_room(*old(game), 2),
    ensures
        collisions_made(*final(game)),
        collisions_settings(final(game).settings, old(game).settings),
{
    set_empty_map(game, Size2D { width: 100, height: 100 });
    game.settings.max_cells_spawn = 10_000;
    helper_base(game);
    game.settings.auto_spawn.amount = 100;
    game.settings.auto_spawn.color = crate::game::settings::AutoSpawnEntityColor::Random(default_color_random());
    let w: i32 = game.map.size.width * game.map.size_field;
    let h: i32 = game.map.size.height * game.map.size_field;
    helper_new_entity_location(game, Point2D { x: w / 2 - 100_000, y: h / 2 });
    let mut food = EntityCharacteristics::default();
    food.killer = false;
    food.collide = true;
    food.collide_when_mergeable = true;
    food.mass_min = RATIO_MASS;
    food.mass_max = RATIO_MASS * 10_000;
    food.throw_entity = None;
    food.inertia = 30;
    let mut c = EntityCharacteristics::default();
    c.mass_min = RATIO_MASS * 1_000;
    c.mass_max = RATIO_MASS * 100_000;
    c.killer = true;
    c.on_death = Some(OnDeathEffect::Split(8));
    c.throw_entity = Some(ThrowEntityInfo {
        mass_minimum_to_throw: RATIO_MASS * 2_000,
        mass_self_added: -RATIO_MASS * 5,
        mass_entity_thrown: RATIO_MASS * 10,
        power: IntRange { start: 1_000, end: 2_000 },
        color: ThrownEntityColor::Random(default_color_random()),
        texture: ThrownEntityTexture::CustomIndex(2),
        timer_entity_thrown: EntityTimer::default(),
        characteristics_entity_thrown: ThrownEntityCharacteristics::Custom(Box::new(food)),
    });
    game.new_entity(EntityInfo {
        player: 0,
        position: Point2D { x: w / 2, y: h / 2 },
        mass: RATIO_MASS * 2_000,
        color: default_color()[3],
        texture: 3,
        timer: EntityTimer::default(),
        characteristics: c,
    });
}

} // verus!
