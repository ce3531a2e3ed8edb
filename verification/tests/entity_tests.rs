use cells::debug::DebugSettings;
use cells::entity::flags::{EntityFlags, BOUNCE, MOVED};
use cells::entity::index::MatrixIndex;
use cells::entity::{
    EntityCharacteristics, EntityColor, EntityInfo, EntitySpecial, IntRange, ThrowEntityInfo, ThrownEntityCharacteristics,
    ThrownEntityColor, ThrownEntityTexture,
};
use cells::game::player::{PlayerInfo, PlayerKind};
use cells::game::{Game, GameInfo, GameSerialize};
use cells::entity::entities::Entities;
use cells::entity::RATIO_MASS;
use cells::geometry::{Point2D, Rect, Size2D};
use cells::utils::VecUniqueIndex;

#[test]
fn debug_settings_start_off() {
    let d = DebugSettings::new();
    assert!(!d.draw_matrix_simple);
    assert!(!d.draw_matrix_physics);
    assert!(!d.draw_color_pression);
}

#[test]
fn matrix_index_gives_its_three_coordinates() {
    let ix = MatrixIndex { x: 3, y: 7, z: 11 };
    assert_eq!(ix.xyz(), (3, 7, 11));
}

#[test]
fn empty_thrown_palette_gets_the_default_colour() {
    let mut c = ThrownEntityColor::Random(Vec::new());
    c.validate();
    match c {
        ThrownEntityColor::Random(v) => {
            assert_eq!(v.len(), 1);
            assert_eq!(v[0].center, [128, 128, 128, 255]);
            assert_eq!(v[0].edge, [0, 0, 0, 255]);
        }
        _ => panic!("the palette stays random"),
    }
}

#[test]
fn non_empty_thrown_palette_stays() {
    let red = EntityColor { center: [255, 0, 0, 255], edge: [0, 0, 0, 255] };
    let mut c = ThrownEntityColor::Random(vec![red]);
    c.validate();
    match c {
        ThrownEntityColor::Random(v) => {
            assert_eq!(v.len(), 1);
            assert_eq!(v[0].center, [255, 0, 0, 255]);
        }
        _ => panic!("the palette stays random"),
    }
}

#[test]
fn characteristics_validation_fixes_bounds() {
    let mut c = EntityCharacteristics::default();
    c.collide = false;
    c.collide_when_mergeable = true;
    c.inertia = -5;
    c.mass_min = -3;
    c.mass_max = -10;
    let mut t = ThrowEntityInfo::default();
    t.power = IntRange { start: -4, end: -8 };
    c.throw_entity = Some(t);
    c.validate();
    assert!(!c.collide_when_mergeable);
    assert_eq!(c.inertia, 0);
    assert_eq!(c.mass_min, 1);
    assert_eq!(c.mass_max, 1);
    let t = c.throw_entity.as_ref().unwrap();
    assert_eq!(t.power.start, 0);
    assert_eq!(t.power.end, 1);
}

#[test]
fn characteristics_validation_reaches_nested_characteristics() {
    let mut inner = EntityCharacteristics::default();
    inner.mass_min = 0;
    inner.mass_max = 0;
    let mut t = ThrowEntityInfo::default();
    t.characteristics_entity_thrown = ThrownEntityCharacteristics::Custom(Box::new(inner));
    let mut c = EntityCharacteristics::default();
    c.throw_entity = Some(t);
    c.validate();
    match &c.throw_entity.as_ref().unwrap().characteristics_entity_thrown {
        ThrownEntityCharacteristics::Custom(b) => {
            assert_eq!(b.mass_min, 1);
            assert_eq!(b.mass_max, 1);
        }
        _ => panic!("stays custom"),
    }
}

#[test]
fn characteristics_copy_is_field_for_field() {
    let mut c = EntityCharacteristics::default();
    c.killer = true;
    c.mass_min = 42;
    c.special.push(EntitySpecial::WASM(String::from("script")));
    let mut t = ThrowEntityInfo::default();
    t.texture = ThrownEntityTexture::Random(vec![4, 5]);
    t.color = ThrownEntityColor::Random(vec![EntityColor::default()]);
    c.throw_entity = Some(t);
    let d = c.duplicate();
    assert!(d.killer);
    assert_eq!(d.mass_min, 42);
    assert_eq!(d.special.len(), 1);
    match &d.special[0] {
        EntitySpecial::WASM(s) => assert_eq!(s, "script"),
    }
    match &d.throw_entity.as_ref().unwrap().texture {
        ThrownEntityTexture::Random(v) => assert_eq!(v, &vec![4, 5]),
        _ => panic!("stays random"),
    }
}

#[test]
fn flags_insert_and_remove_touch_one_flag() {
    let mut f = EntityFlags::empty();
    f.insert(BOUNCE);
    f.insert(MOVED);
    assert!(f.contains(BOUNCE));
    assert!(f.contains(MOVED));
    f.remove(MOVED);
    assert!(!f.contains(MOVED));
    assert!(f.contains(BOUNCE));
    assert_eq!(f.bits, BOUNCE);
}

#[test]
fn rect_from_points_and_queries() {
    let r = Rect::from_points(Point2D::new(10, 20), Point2D::new(0, 5));
    assert_eq!(r.origin, Point2D::new(0, 5));
    assert_eq!(r.size, Size2D::new(10, 15));
    assert_eq!(r.max_x(), 10);
    assert_eq!(r.max_y(), 20);
    assert!(r.contains(Point2D::new(5, 10)));
    assert!(!r.contains(Point2D::new(10, 10)));
    let other = Rect::new(Point2D::new(9, 19), Size2D::new(5, 5));
    assert!(r.intersects(&other));
    let far = Rect::new(Point2D::new(50, 50), Size2D::new(5, 5));
    assert!(!r.intersects(&far));
}

#[test]
fn unique_index_reuses_given_back_ids() {
    let mut g = VecUniqueIndex::new();
    let a = g.gen_id();
    let b = g.gen_id();
    assert_ne!(a, b);
    g.remove(a);
    let c = g.gen_id();
    assert_eq!(c, a);
    let d = g.gen_id();
    assert_ne!(d, b);
    assert_ne!(d, c);
}

fn game_with_players(n: usize) -> Game {
    let mut game = Game::new(GameInfo { threads: 1 });
    for _ in 0..n {
        game.new_player(PlayerInfo::default());
    }
    game
}

#[test]
fn entity_info_validation_brings_it_into_the_game() {
    let game = game_with_players(2);
    let mut info = EntityInfo::default();
    info.player = 7;
    info.position = Point2D::new(-5, 2_000_000);
    info.mass = 5;
    info.validate(&game);
    assert_eq!(info.player, 1);
    assert_eq!(info.position, Point2D::new(0, 999_999));
    assert_eq!(info.mass, 1_000_000);
}

#[test]
fn entity_info_validation_keeps_a_valid_description() {
    let game = game_with_players(2);
    let mut info = EntityInfo::default();
    info.player = 1;
    info.position = Point2D::new(500, 600);
    info.mass = 3_000_000;
    info.validate(&game);
    assert_eq!(info.player, 1);
    assert_eq!(info.position, Point2D::new(500, 600));
    assert_eq!(info.mass, 3_000_000);
}

#[test]
fn saving_then_loading_gives_the_entities_back() {
    let mut game = Game::new(GameInfo { threads: 1 });
    game.new_player(PlayerInfo::default());
    let mut local = PlayerInfo::default();
    local.kind = PlayerKind::Player;
    local.cell_default_texture = 14;
    game.new_player(local);
    let mut a = EntityInfo::default();
    a.player = 1;
    a.position = Point2D::new(123, 456);
    a.mass = 7 * RATIO_MASS;
    a.texture = 3;
    game.new_entity(a);
    let mut b = EntityInfo::default();
    b.player = 0;
    b.position = Point2D::new(999, 1);
    b.mass = 2 * RATIO_MASS;
    b.timer.mergeable = Some(12);
    game.new_entity(b);
    let saved = GameSerialize::from_game(&game);
    assert_eq!(saved.entities_info.len(), 2);
    assert_eq!(saved.entities_info[0].position, Point2D::new(123, 456));
    assert_eq!(saved.players_info[1].entities, vec![0]);
    let mut loaded = Game::new(GameInfo { threads: 1 });
    saved.to_game(&mut loaded);
    assert_eq!(loaded.players.len(), 2);
    assert_eq!(loaded.players[1].kind, PlayerKind::Player);
    assert_eq!(loaded.players[1].cell_default_texture, 14);
    assert_eq!(loaded.entities.len(), 2);
    for i in 0..2 {
        assert_eq!(loaded.entities.core[i].player, game.entities.core[i].player);
        assert_eq!(loaded.entities.position[i], game.entities.position[i]);
        assert_eq!(loaded.entities.mass[i], game.entities.mass[i]);
        assert_eq!(loaded.entities.timer[i].mergeable, game.entities.timer[i].mergeable);
        assert_eq!(loaded.entities.core[i].index.texture, game.entities.core[i].index.texture);
    }
    assert_eq!(loaded.players[1].entities, vec![0]);
    assert_eq!(loaded.players[0].entities, vec![1]);
}

fn three_entities_of_player_zero() -> Game {
    let mut game = Game::new(GameInfo { threads: 1 });
    game.new_player(PlayerInfo::default());
    game.new_player(PlayerInfo::default());
    for k in 0..3 {
        let mut info = EntityInfo::default();
        info.position = Point2D::new(100 * k, 100);
        info.mass = 5 * RATIO_MASS;
        game.new_entity(info);
    }
    game
}

#[test]
fn updating_an_entity_moves_it_to_its_new_player() {
    let mut game = three_entities_of_player_zero();
    let mut info = EntityInfo::default();
    info.player = 1;
    info.position = Point2D::new(777, 888);
    info.mass = 9 * RATIO_MASS;
    info.texture = 6;
    info.characteristics.killer = true;
    Entities::update(&mut game, 0, info);
    assert_eq!(game.players[0].entities, vec![2, 1]);
    assert_eq!(game.players[1].entities, vec![0]);
    assert_eq!(game.entities.core[2].index.player, 0);
    assert_eq!(game.entities.core[0].index.player, 0);
    assert_eq!(game.entities.core[0].player, 1);
    assert_eq!(game.entities.position[0], Point2D::new(777, 888));
    assert_eq!(game.entities.mass[0], 9 * RATIO_MASS);
    assert_eq!(game.entities.core[0].index.texture, 6);
    assert!(game.entities.flags[0].contains(cells::entity::flags::EATER));
}

#[test]
fn updating_an_entity_of_the_same_player_keeps_the_lists() {
    let mut game = three_entities_of_player_zero();
    let mut info = EntityInfo::default();
    info.position = Point2D::new(5, 6);
    info.mass = 3 * RATIO_MASS;
    Entities::update(&mut game, 1, info);
    assert_eq!(game.players[0].entities, vec![0, 1, 2]);
    assert_eq!(game.entities.position[1], Point2D::new(5, 6));
    assert_eq!(game.entities.mass[1], 3 * RATIO_MASS);
}

#[test]
fn refreshing_a_record_keeps_its_slot_until_the_entity_leaves_its_cell() {
    let mut game = three_entities_of_player_zero();
    let before = game.entities.index_matrix_simple[1];
    game.entities.position[1] = Point2D::new(150, 900);
    game.map.matrix_simple.update_entity_2(&mut game.entities, 1);
    assert_eq!(game.entities.index_matrix_simple[1], before);
    game.entities.position[1] = Point2D::new(25_000, 900);
    game.map.matrix_simple.update_entity_2(&mut game.entities, 1);
    let after = game.entities.index_matrix_simple[1];
    assert_eq!((after.x, after.y), (2, 0));
}

#[test]
fn writing_back_what_was_read_of_an_entity_changes_nothing() {
    let mut game = three_entities_of_player_zero();
    game.entities.flags[1].insert(MOVED);
    let before_flags = game.entities.flags[1];
    let info = EntityInfo::from_entity(&game, 1);
    let position = game.entities.position[1];
    let mass = game.entities.mass[1];
    Entities::update(&mut game, 1, info);
    assert_eq!(game.entities.position[1], position);
    assert_eq!(game.entities.mass[1], mass);
    assert_eq!(game.players[0].entities, vec![0, 1, 2]);
    assert!(!game.entities.flags[1].contains(MOVED));
    assert_eq!(game.entities.flags[1].contains(BOUNCE), before_flags.contains(BOUNCE));
}
