use vstd::prelude::*;
use crate::entity::EntityCharacteristics;
use crate::entity::EntityInfo;
use crate::entity::EntityTimer;
use crate::entity::IntRange;
use crate::entity::OnDeathEffect;
use crate::entity::RATIO_MASS;
use crate::entity::ThrowEntityInfo;
use crate::entity::ThrownEntityCharacteristics;
use crate::entity::ThrownEntityColor;
use crate::entity::ThrownEntityTexture;
use crate::game::Game;
use crate::game::colors::default_color;
use crate::game::colors::default_color_random;
use crate::game::player::PlayerInfo;
use crate::game::player::PlayerKind;
use crate::geometry::Point2D;
use crate::geometry::Size2D;
use super::{settings_but_cap, set_empty_map, helper_base, texture_range, cleared_with_room, trail_made};

verus! {

/// Builds the "trail" map on a cleared game (see `trail_made`).
pub fn create(game: &mut Game)
    requires
        cleared_with_room(*old(game), 2),
    ensures
        trail_made(*final(game)),
        settings_but_cap(final(game).settings, old(game).settings),
{
    set_empty_map(game, Size2D { width: 50, height: 50 });
    helper_base(game);
    game.settings.max_cells_spawn = 0;
    game.settings.local_player_characteristics.throw_entity = Some(ThrowEntityInfo {
        mass_minimum_to_throw: RATIO_MASS * 100,
        mass_self_added: -RATIO_MASS * 2,
        mass_entity_thrown: RATIO_MASS * 2,
        power: IntRange { start: 500, end: 1_000 },
        color: ThrownEntityColor::Same,
        texture: ThrownEntityTexture::Same,
        timer_entity_thrown: EntityTimer::default(),
        characteristics_entity_thrown: ThrownEntityCharacteristics::Custom(Box::new(EntityCharacteristics::default())),
    });
    game.new_player(PlayerInfo::default());
    let colors = default_color();
    game.new_player(PlayerInfo {
        kind: PlayerKind::Player,
        entities: Vec::new(),
        cell_default_color: colors[14],
        cell_default_texture: 14,
    });
    game.new_entity(EntityInfo {
        player: 1,
        position: Point2D { x: 0, y: 0 },
        mass: RATIO_MASS * 10,
        color: colors[14],
        texture: 14,
        timer: EntityTimer::default(),
        characteristics: game.settings.local_player_characteristics.duplicate(),
    });
    let mut food = EntityCharacteristics::default();
    food.killer = false;
    food.collide = false;
    food.mass_min = RATIO_MASS;
    food.mass_max = RATIO_MASS * 100;
    food.throw_entity = None;
    let mut c = EntityCharacteristics::default();
    c.mass_min = RATIO_MASS * 500;
    c.mass_max = RATIO_MASS * 100_000;
    c.killer = true;
    c.on_death = Some(OnDeathEffect::Split(8));
    c.throw_entity = Some(ThrowEntityInfo {
        mass_minimum_to_throw: RATIO_MASS * 1_000,
        mass_self_added: -RATIO_MASS,
        mass_entity_thrown: RATIO_MASS,
        power: IntRange { start: 100, end: 10_000 },
        color: ThrownEntityColor::Random(default_color_random()),
        texture: ThrownEntityTexture::Random(texture_range()),
        timer_entity_thrown: EntityTimer::default(),
        characteristics_entity_thrown: ThrownEntityCharacteristics::Custom(Box::new(food)),
    });
    let w: i32 = game.map.size.width * game.map.size_field;
    let h: i32 = game.map.size.height * game.map.size_field;
    game.new_entity(EntityInfo {
        player: 0,
        position: Point2D { x: w / 2, y: h / 2 },
        mass: RATIO_MASS * 100_000,
        color: colors[1],
        texture: 1,
        timer: EntityTimer::default(),
        characteristics: c,
    });
}

} // verus!
