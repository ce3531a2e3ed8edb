use cells::entity::RATIO_MASS;
use cells::game::player::PlayerKind;
use cells::game::{Game, GameInfo};
use cells::geometry::{Point2D, Size2D};
use cells::entity::EntityColor;
use cells::map::matrix_physics::{bigger_cells_index, MapPhysics};
use cells::map::premade::{create_premade_map, PremadeLayout};

#[test]
fn the_black_hole_map_rings_the_hole_with_throwers() {
    let mut game = Game::new(GameInfo { threads: 1 });
    assert!(create_premade_map(&mut game, "black hole", &no_layout()));
    assert_eq!(game.map.size, Size2D::new(200, 200));
    assert_eq!(game.players.len(), 2);
    assert!(matches!(game.players[1].kind, PlayerKind::Player));
    assert_eq!(game.settings.max_cells_spawn, 20_000);
    assert_eq!(game.settings.auto_spawn.amount, 100);
    assert_eq!(game.entities.len(), 26);
    assert_eq!(game.entities.position[0], Point2D::new(0, 0));
    assert_eq!(game.entities.mass[0], 10 * RATIO_MASS);
    assert_eq!(game.entities.core[0].player, 1);
    assert_eq!(game.entities.position[1], Point2D::new(1_000_000, 1_000_000));
    assert_eq!(game.entities.mass[1], 200 * RATIO_MASS);
    assert_eq!(game.entities.core[1].characteristics.mass_min, 100 * RATIO_MASS);
    assert_eq!(game.entities.position[2], Point2D::new(285_714, 200_000));
    assert_eq!(game.entities.position[3], Point2D::new(285_714, 1_800_000));
    assert_eq!(game.entities.position[13], Point2D::new(1_714_284, 1_800_000));
    assert_eq!(game.entities.position[14], Point2D::new(200_000, 285_714));
    assert_eq!(game.entities.position[25], Point2D::new(1_800_000, 1_714_284));
    assert_eq!(game.players[0].entities.len(), 25);
}

#[test]
fn the_autonomous_map_has_the_local_entity_alone_at_the_centre() {
    let mut game = Game::new(GameInfo { threads: 1 });
    assert!(create_premade_map(&mut game, "autonomous", &no_layout()));
    assert_eq!(game.map.size, Size2D::new(100, 100));
    assert_eq!(game.entities.len(), 1);
    assert_eq!(game.entities.position[0], Point2D::new(499_999, 499_999));
    assert_eq!(game.settings.local_player_food_settings.mass_self_added, -RATIO_MASS);
    assert_eq!(game.settings.local_player_characteristics.inertia, 2);
}

#[test]
fn the_gravity_map_scatters_ten_throwers() {
    let mut game = Game::new(GameInfo { threads: 1 });
    assert!(create_premade_map(&mut game, "gravity", &no_layout()));
    assert_eq!(game.entities.len(), 11);
    assert_eq!(game.settings.max_split, 4);
    assert!(game.settings.local_player_characteristics.gravity.is_some());
    for j in 1..11 {
        assert_eq!(game.entities.core[j].player, 0);
        assert!(game.entities.position[j].x < 1_000_000);
        assert_eq!(game.entities.mass[j], 200 * RATIO_MASS);
    }
}

#[test]
fn an_unknown_map_name_changes_nothing() {
    let mut game = Game::new(GameInfo { threads: 1 });
    assert!(create_premade_map(&mut game, "black hole", &no_layout()));
    assert!(!create_premade_map(&mut game, "nowhere", &no_layout()));
    // The game is cleared before the name is looked up.
    assert_eq!(game.entities.len(), 0);
    assert_eq!(game.players.len(), 0);
    assert_eq!(game.map.size, Size2D::new(100, 100));
    assert_eq!(game.settings.auto_spawn.amount, 100);
    assert_eq!(game.settings.max_cells_spawn, 50_000);
}

#[test]
fn the_classic_map_scatters_food_and_throwers() {
    let mut game = Game::new(GameInfo { threads: 1 });
    assert!(create_premade_map(&mut game, "classic", &no_layout()));
    assert_eq!(game.map.size, Size2D::new(200, 200));
    assert_eq!(game.settings.max_cells_spawn, 100_000);
    assert_eq!(game.settings.auto_spawn.amount, 500);
    assert_eq!(game.entities.len(), 126);
    assert_eq!(game.entities.position[0], Point2D::new(999_999, 999_999));
    for j in 1..101 {
        assert_eq!(game.entities.mass[j], 100 * RATIO_MASS);
        assert!(!game.entities.core[j].characteristics.killer);
    }
    for j in 101..126 {
        assert_eq!(game.entities.mass[j], 200 * RATIO_MASS);
        assert!(game.entities.core[j].characteristics.killer);
        assert!(game.entities.position[j].y < 2_000_000);
    }
}

#[test]
fn the_collisions_map_puts_a_thrower_beside_the_local_entity() {
    let mut game = Game::new(GameInfo { threads: 1 });
    assert!(create_premade_map(&mut game, "collisions", &no_layout()));
    assert_eq!(game.settings.max_cells_spawn, 10_000);
    assert_eq!(game.entities.len(), 2);
    assert_eq!(game.entities.position[0], Point2D::new(400_000, 500_000));
    assert_eq!(game.entities.position[1], Point2D::new(500_000, 500_000));
    assert_eq!(game.entities.mass[1], 2_000 * RATIO_MASS);
    assert_eq!(game.entities.core[1].characteristics.mass_min, 1_000 * RATIO_MASS);
}

#[test]
fn the_trail_map_gives_the_local_player_food_to_throw() {
    let mut game = Game::new(GameInfo { threads: 1 });
    assert!(create_premade_map(&mut game, "trail", &no_layout()));
    assert_eq!(game.map.size, Size2D::new(50, 50));
    assert_eq!(game.players.len(), 4);
    assert_eq!(game.settings.max_cells_spawn, 0);
    assert!(game.settings.local_player_characteristics.throw_entity.is_some());
    assert_eq!(game.entities.len(), 2);
    assert_eq!(game.entities.position[1], Point2D::new(250_000, 250_000));
    assert_eq!(game.entities.mass[1], 100_000 * RATIO_MASS);
}

#[test]
fn the_example_map_rings_the_centre_with_eight_throwers() {
    let mut game = Game::new(GameInfo { threads: 1 });
    assert!(create_premade_map(&mut game, "example", &no_layout()));
    assert_eq!(game.entities.len(), 10);
    assert_eq!(game.entities.position[1], Point2D::new(166_666, 166_666));
    assert_eq!(game.entities.position[2], Point2D::new(166_666, 499_999));
    assert_eq!(game.entities.position[4], Point2D::new(499_999, 166_666));
    assert_eq!(game.entities.position[5], Point2D::new(499_999, 833_332));
    // Asked for fifty units, the throwers get their least mass.
    assert_eq!(game.entities.mass[1], 200 * RATIO_MASS);
    assert_eq!(game.entities.position[9], Point2D::new(500_000, 500_000));
    assert_eq!(game.entities.mass[9], 5_000 * RATIO_MASS);
}

#[test]
fn the_particles_map_has_a_one_unit_local_player() {
    let mut game = Game::new(GameInfo { threads: 1 });
    assert!(create_premade_map(&mut game, "particles", &no_layout()));
    assert_eq!(game.entities.len(), 4);
    assert_eq!(game.entities.mass[0], RATIO_MASS);
    assert_eq!(game.settings.max_split, 1);
    for j in 1..4 {
        assert!(game.entities.core[j].characteristics.invincible);
        assert_eq!(game.entities.mass[j], 200 * RATIO_MASS);
    }
}

#[test]
fn the_exponential_extreme_map_holds_a_thrower_of_throwers() {
    let mut game = Game::new(GameInfo { threads: 1 });
    assert!(create_premade_map(&mut game, "exponential extreme", &no_layout()));
    assert_eq!(game.settings.local_player_characteristics.mass_max, 50_000 * RATIO_MASS);
    assert_eq!(game.entities.len(), 2);
    assert_eq!(game.entities.position[0], Point2D::new(399_999, 499_999));
    assert_eq!(game.entities.position[1], Point2D::new(500_000, 500_000));
    assert_eq!(game.entities.mass[1], 500 * RATIO_MASS);
}

#[test]
fn the_paint_map_walls_the_edges() {
    let mut game = Game::new(GameInfo { threads: 1 });
    assert!(create_premade_map(&mut game, "paint", &no_layout()));
    assert_eq!(game.map.size, Size2D::new(50, 50));
    assert_eq!(game.entities.len(), 801);
    assert_eq!(game.entities.position[0], Point2D::new(249_999, 449_991));
    assert_eq!(game.entities.mass[0], RATIO_MASS);
    assert_eq!(game.entities.position[1], Point2D::new(0, 0));
    assert_eq!(game.entities.position[2], Point2D::new(0, 499_999));
    assert_eq!(game.entities.position[400], Point2D::new(199 * 2_499, 499_999));
    assert_eq!(game.entities.position[401], Point2D::new(0, 0));
    assert_eq!(game.entities.position[800], Point2D::new(499_999, 199 * 2_499));
    assert_eq!(game.settings.local_player_food_settings.mass_self_added, 0);
}

fn no_layout() -> PremadeLayout {
    PremadeLayout {
        spawn_palette: Vec::new(),
        big_palettes: Vec::new(),
        big_positions: Vec::new(),
        medium_positions: Vec::new(),
        medium_colors: Vec::new(),
        picture_width: 0,
        picture: Vec::new(),
    }
}

fn grey(v: u8) -> EntityColor {
    EntityColor { center: [v, v, v, 255], edge: [v, v, v, 255] }
}

#[test]
fn the_definitive_map_places_the_big_and_medium_cells_around_the_local_entity() {
    let mut game = Game::new(GameInfo { threads: 1 });
    let layout = PremadeLayout {
        spawn_palette: vec![grey(1), grey(2)],
        big_palettes: (0..6).map(|k| vec![grey(k)]).collect(),
        big_positions: (1..6).map(|k| Point2D::new(k * 1_000_000, 2_000_000)).collect(),
        medium_positions: vec![
            Point2D::new(-5, 7_000_000),
            Point2D::new(1, 1),
            Point2D::new(2, 2),
            Point2D::new(3, 3),
            Point2D::new(4, 4),
            Point2D::new(12_000_000, 5),
        ],
        medium_colors: (10..16).map(grey).collect(),
        picture_width: 0,
        picture: Vec::new(),
    };
    assert!(create_premade_map(&mut game, "definitive", &layout));
    assert_eq!(game.map.size, Size2D::new(1_000, 1_000));
    assert_eq!(game.entities.len(), 13);
    assert_eq!(game.entities.position[0], Point2D::new(5_000_000, 1_000_000));
    assert_eq!(game.entities.core[0].color.center, [240, 15, 15, 255]);
    assert_eq!(game.entities.position[3], Point2D::new(3_000_000, 2_000_000));
    assert_eq!(game.entities.mass[5], 100_000 * RATIO_MASS);
    assert_eq!(game.entities.position[6], Point2D::new(0, 7_000_000));
    assert_eq!(game.entities.position[11], Point2D::new(9_999_999, 5));
    assert_eq!(game.entities.core[7].color.center, [11, 11, 11, 255]);
    assert_eq!(game.entities.position[12], Point2D::new(4_999_999, 4_999_999));
    assert_eq!(game.entities.core[12].player, 1);
    assert_eq!(game.settings.auto_spawn.amount, 1_000);
    assert!(game.settings.special);
}

#[test]
fn a_game_starts_on_the_definitive_map() {
    let mut game = Game::new(GameInfo { threads: 1 });
    let layout = PremadeLayout {
        spawn_palette: vec![grey(3)],
        big_palettes: (0..6).map(|k| vec![grey(k)]).collect(),
        big_positions: (1..6).map(|k| Point2D::new(k * 1_000_000, 2_000_000)).collect(),
        medium_positions: (0..6).map(|k| Point2D::new(k, k)).collect(),
        medium_colors: (0..6).map(grey).collect(),
        picture_width: 0,
        picture: Vec::new(),
    };
    game.init(&layout);
    assert_eq!(game.entities.len(), 13);
    assert_eq!(game.map.size, Size2D::new(1_000, 1_000));
    assert_eq!(game.settings.max_cells_spawn, 100_000);
}

#[test]
fn a_physics_cell_lies_in_the_coarser_cells_above_it() {
    assert_eq!(bigger_cells_index(0, 17, 9, 3, 4), vec![(1, 4, 2), (2, 1, 0)]);
    assert_eq!(bigger_cells_index(1, 100, 30, 4, 3), vec![(2, 33, 10), (3, 11, 3)]);
    assert!(bigger_cells_index(2, 5, 5, 3, 4).is_empty());
    assert!(bigger_cells_index(1, 7, 7, 2, 0).is_empty());
}

#[test]
fn the_mona_lisa_map_paints_one_cell_per_pixel() {
    let mut game = Game::new(GameInfo { threads: 1 });
    let mut layout = no_layout();
    layout.picture_width = 3;
    layout.picture = (0..6).map(grey).collect();
    assert!(create_premade_map(&mut game, "mona lisa", &layout));
    assert_eq!(game.map.size, Size2D::new(40, 65));
    assert_eq!(game.settings.max_cells_spawn, 0);
    assert_eq!(game.entities.len(), 7);
    assert_eq!(game.entities.position[0], Point2D::new(200_000, 625_000));
    assert_eq!(game.entities.mass[0], 100 * RATIO_MASS);
    assert_eq!(game.entities.position[3], Point2D::new(2_000, 0));
    assert_eq!(game.entities.position[4], Point2D::new(0, 1_000));
    assert_eq!(game.entities.core[6].color.center, [5, 5, 5, 255]);
    assert_eq!(game.entities.mass[6], RATIO_MASS);
}

#[test]
fn a_map_keeps_the_default_settings_it_does_not_set() {
    let mut game = Game::new(GameInfo { threads: 1 });
    assert!(create_premade_map(&mut game, "gravity", &no_layout()));
    assert!(create_premade_map(&mut game, "black hole", &no_layout()));
    // The gravity map's cap on splits does not carry over.
    assert_eq!(game.settings.max_split, 64);
    assert_eq!(game.settings.local_player, 1);
    assert_eq!(game.settings.local_player_food_settings.mass_self_added, -2 * RATIO_MASS);
}

#[test]
fn the_physics_grids_widen_by_the_ratio_and_cover_the_map() {
    let m = MapPhysics::new(Size2D::new(1_000_000, 650_000), 10_000, 4, 3);
    assert_eq!(m.grids.len(), 3);
    assert_eq!(m.grids[0].size_field, 10_000);
    assert_eq!(m.grids[0].size, Size2D::new(100, 65));
    assert_eq!(m.grids[1].size_field, 40_000);
    assert_eq!(m.grids[1].size, Size2D::new(25, 17));
    assert_eq!(m.grids[2].size_field, 160_000);
    assert_eq!(m.grids[2].size, Size2D::new(7, 5));
    assert_eq!(m.grid_for(9_999), 0);
    assert_eq!(m.grid_for(10_000), 1);
    assert_eq!(m.grid_for(1_000_000), 2);
    assert_eq!(m.count(), 3);
}
