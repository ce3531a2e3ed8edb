use cells::entity::flags::{MASS_CHANGED, MATRIX_SIMPLE_TO_CHANGE, MOVED};
use cells::entity::{EntityAction, EntityColor, EntityInfo, OnDeathEffect, RATIO_MASS};
use cells::game::player::PlayerInfo;
use cells::game::settings::{AutoSpawnEntityColor, AutoSpawnEntityTexture, AutoSpawnMass, SpawnPosition};
use cells::game::{Game, GameInfo, GameState};
use cells::game_solver::{GameSolver, UpdatePlan};
use cells::game_solver::cache_entity::CacheEntitySolver;
use cells::game_solver::cache_game::CacheGameSolver;
use cells::game_solver::cache_player::CachePlayerSolver;
use cells::game_solver::eating_solver::EatingSolver;
use cells::game_solver::collisions_solver::check_entity;
use cells::game_solver::throwing_entity_solver::ThrowingEntitySolver;
use cells::entity::{EntityColor as Colour, ThrowEntityInfo, ThrownEntityColor, ThrownEntityTexture};
use cells::game::player::PlayerAction;
use cells::game_solver::entity_solver::EntitySolver;
use cells::game_solver::map_solver::{MapSolver, SpawnDraw};
use cells::game_solver::no_interactions_solver::NoInteractionsSolver;
use cells::game_solver::position_solver::{bounce, bounce_basic, not_bounce, AxisSpeed};
use cells::geometry::{Point2D, Size2D, Vector2D};

fn game_with_players(n: usize) -> Game {
    let mut game = Game::new(GameInfo { threads: 1 });
    for _ in 0..n {
        game.new_player(PlayerInfo::default());
    }
    game
}

fn info_at(player: usize, x: i32, y: i32, mass: i64) -> EntityInfo {
    let mut info = EntityInfo::default();
    info.player = player;
    info.position = Point2D::new(x, y);
    info.mass = mass;
    info
}

fn no_offset(_mass: i64) -> Vector2D {
    Vector2D::new(0, 0)
}

#[test]
fn bounce_mirrors_back_onto_the_map() {
    let max = Size2D::new(999_999, 999_999);
    let mut p = Point2D::new(-5, 1_000_005);
    let e = bounce(&mut p, max);
    assert_eq!(p, Point2D::new(5, 999_993));
    assert_eq!(e, (AxisSpeed::Positive, AxisSpeed::Negative));
}

#[test]
fn bounce_far_outside_is_clamped() {
    let max = Size2D::new(100, 100);
    let mut p = Point2D::new(-500, 450);
    let e = bounce(&mut p, max);
    assert_eq!(p, Point2D::new(100, 0));
    assert_eq!(e, (AxisSpeed::Positive, AxisSpeed::Negative));
}

#[test]
fn not_bounce_stops_at_the_edges() {
    let max = Size2D::new(999_999, 999_999);
    let mut p = Point2D::new(-5, 1_000_005);
    let e = not_bounce(&mut p, max);
    assert_eq!(p, Point2D::new(0, 999_999));
    assert_eq!(e, (AxisSpeed::Stop, AxisSpeed::Stop));
}

#[test]
fn bounce_basic_puts_on_the_edges() {
    let max = Size2D::new(50, 50);
    let mut p = Point2D::new(60, 20);
    let e = bounce_basic(&mut p, max);
    assert_eq!(p, Point2D::new(50, 20));
    assert_eq!(e, (AxisSpeed::Negative, AxisSpeed::Keep));
}

#[test]
fn timers_count_down_and_stop() {
    assert_eq!(CacheEntitySolver::add_timer(Some(5), -1), Some(4));
    assert_eq!(CacheEntitySolver::add_timer(Some(1), -1), None);
    assert_eq!(CacheEntitySolver::add_timer(None, 3), Some(3));
    assert_eq!(CacheEntitySolver::add_timer(None, -3), None);
}

#[test]
fn mass_is_added_within_bounds() {
    assert_eq!(CacheEntitySolver::add_mass(10, -20, 5, 100), 5);
    assert_eq!(CacheEntitySolver::add_mass(10, 500, 5, 100), 100);
    assert_eq!(CacheEntitySolver::add_mass(10, 20, 5, 100), 30);
    assert_eq!(CacheEntitySolver::add_mass(0, 0, -50, -20), 1);
}

#[test]
fn move_position_limits_the_step() {
    let max = Size2D::new(2_000_000_000, 2_000_000_000);
    let mut p = Point2D::new(10, 10);
    let e = CacheEntitySolver::move_position(&mut p, 1_500_000_000, 5, max, false);
    assert_eq!(p, Point2D::new(1_000_000_010, 15));
    assert_eq!(e, (AxisSpeed::Keep, AxisSpeed::Keep));
}

#[test]
fn deleting_an_entity_moves_the_last_one_and_its_handle() {
    let mut game = game_with_players(2);
    game.new_entity(info_at(0, 10, 10, 2_000_000));
    game.new_entity(info_at(1, 20, 20, 3_000_000));
    game.new_entity(info_at(1, 30, 30, 4_000_000));
    assert_eq!(game.entities.len(), 3);
    let h0 = game.entities.core[0].index.main_ptr;
    let h2 = game.entities.core[2].index.main_ptr;
    game.delete_entity(0);
    assert_eq!(game.entities.len(), 2);
    assert_eq!(game.entities.main_ptr_upgrade(h0), None);
    assert_eq!(game.entities.main_ptr_upgrade(h2), Some(0));
    assert_eq!(game.entities.position[0], Point2D::new(30, 30));
    assert_eq!(game.entities.mass[0], 4_000_000);
    assert_eq!(game.players[0].entities.len(), 0);
    assert_eq!(game.players[1].entities.len(), 2);
    assert_eq!(game.entities.core[0].index.main, 0);
}

#[test]
fn total_mass_sums_every_entity() {
    let mut game = game_with_players(1);
    game.new_entity(info_at(0, 1, 1, 2_000_000));
    game.new_entity(info_at(0, 2, 2, 5));
    assert_eq!(game.total_mass(), 3_000_000);
}

#[test]
fn cache_game_adds_then_kills() {
    let mut game = game_with_players(1);
    game.new_entity(info_at(0, 10, 10, 2_000_000));
    game.new_entity(info_at(0, 20, 20, 2_000_000));
    let h0 = game.entities.core[0].index.main_ptr;
    let h1 = game.entities.core[1].index.main_ptr;
    game.buffer_add_entity.push(info_at(0, 99, 99, 7_000_000));
    game.buffer_kill_entity.push(h0);
    CacheGameSolver::solve(&mut game);
    assert_eq!(game.entities.len(), 2);
    assert!(game.buffer_add_entity.is_empty());
    assert!(game.buffer_kill_entity.is_empty());
    assert_eq!(game.entities.main_ptr_upgrade(h0), None);
    let i1 = game.entities.main_ptr_upgrade(h1).unwrap();
    assert_eq!(game.entities.position[i1], Point2D::new(20, 20));
    assert_eq!(game.entities.position[0], Point2D::new(99, 99));
    assert_eq!(game.entities.mass[0], 7_000_000);
}

#[test]
fn first_buffer_applies_changes_in_order() {
    let mut game = game_with_players(2);
    game.new_entity(info_at(0, 500, 500, 5_000_000));
    game.new_entity(info_at(1, 800, 800, 5_000_000));
    let handle = game.entities.core[0].index.main_ptr;
    let red = EntityColor { center: [255, 0, 0, 255], edge: [0, 0, 0, 255] };
    game.entities.send_buffer(0, EntityAction::AddMergeableTime(5));
    game.entities.send_buffer(0, EntityAction::AddPosition(100, -200));
    game.entities.send_buffer(0, EntityAction::AddPosition(0, 50));
    game.entities.send_buffer(0, EntityAction::AddMass(2_000_000));
    game.entities.send_buffer(0, EntityAction::Killed(1));
    game.entities.send_buffer(0, EntityAction::Killed(1));
    game.entities.send_buffer(0, EntityAction::SetColor(red));
    let effects = CacheEntitySolver::solve_first(&mut game, 0, &no_offset);
    assert_eq!(effects, vec![(AxisSpeed::Keep, AxisSpeed::Keep)]);
    assert_eq!(game.entities.timer[0].mergeable, Some(5));
    assert_eq!(game.entities.position[0], Point2D::new(600, 300));
    assert_eq!(game.entities.mass[0], 7_000_000);
    assert!(game.entities.flags[0].contains(MOVED));
    assert!(game.entities.flags[0].contains(MASS_CHANGED));
    assert_eq!(game.entities.core[0].killed, Some(1));
    assert_eq!(game.entities.core[0].color.center, [255, 0, 0, 255]);
    assert_eq!(game.buffer_kill_entity, vec![handle]);
    assert!(game.entities.buffer[0].is_empty());
    assert_eq!(game.entities.buffer2[0].len(), 1);
    assert!(matches!(game.entities.buffer2[0][0], EntityAction::KilledConfirmed(1)));
}

#[test]
fn a_move_past_the_edge_bounces() {
    let mut game = game_with_players(1);
    game.new_entity(info_at(0, 10, 10, 2_000_000));
    game.entities.send_buffer(0, EntityAction::AddPosition(-30, 5));
    let effects = CacheEntitySolver::solve_first(&mut game, 0, &no_offset);
    assert_eq!(game.entities.position[0], Point2D::new(20, 15));
    assert_eq!(effects, vec![(AxisSpeed::Positive, AxisSpeed::Keep)]);
}

#[test]
fn a_split_conserves_mass() {
    let mut game = game_with_players(1);
    game.new_entity(info_at(0, 1_000, 2_000, 10 * RATIO_MASS));
    game.entities.send_buffer(0, EntityAction::Split(1));
    let offset = |_m: i64| Vector2D::new(7, -3);
    CacheEntitySolver::solve_first(&mut game, 0, &offset);
    assert_eq!(game.buffer_add_entity.len(), 1);
    let piece = &game.buffer_add_entity[0];
    assert!(piece.mass >= RATIO_MASS && piece.mass < 5 * RATIO_MASS);
    assert_eq!(piece.mass + game.entities.mass[0], 10 * RATIO_MASS);
    assert_eq!(piece.position, Point2D::new(1_007, 1_997));
    assert_eq!(piece.player, 0);
    assert_eq!(piece.timer.mergeable, Some(1_000));
    assert_eq!(piece.timer.inertia, Some(20));
    assert_eq!(piece.timer.collision, Some(1));
    assert_eq!(piece.timer.collision_ratio, Some(50));
}

#[test]
fn a_light_entity_does_not_split() {
    let mut game = game_with_players(1);
    game.new_entity(info_at(0, 1_000, 2_000, 3 * RATIO_MASS / 2));
    game.entities.send_buffer(0, EntityAction::Split(4));
    CacheEntitySolver::solve_first(&mut game, 0, &no_offset);
    assert!(game.buffer_add_entity.is_empty());
    assert_eq!(game.entities.mass[0], 3 * RATIO_MASS / 2);
}

#[test]
fn confirmed_death_feeds_the_end_of_the_killer_chain() {
    let mut game = game_with_players(1);
    game.new_entity(info_at(0, 10, 10, 3 * RATIO_MASS));
    game.new_entity(info_at(0, 20, 20, 4 * RATIO_MASS));
    game.new_entity(info_at(0, 30, 30, 5 * RATIO_MASS));
    game.entities.core[0].killed = Some(1);
    game.entities.core[1].killed = Some(2);
    game.entities.core[0].characteristics.on_death = Some(OnDeathEffect::Split(2));
    game.entities.core[2].characteristics.can_split_on_kill = true;
    game.entities.send_buffer2(0, EntityAction::KilledConfirmed(1));
    CacheEntitySolver::solve_second(&mut game, 0);
    assert!(game.entities.buffer2[0].is_empty());
    assert!(game.entities.buffer[1].is_empty());
    assert_eq!(game.entities.buffer[2].len(), 2);
    assert!(matches!(game.entities.buffer[2][0], EntityAction::AddMass(m) if m == 3 * RATIO_MASS));
    assert!(matches!(game.entities.buffer[2][1], EntityAction::Split(2)));
}

#[test]
fn confirmations_stop_at_a_killer_that_cannot_split() {
    let mut game = game_with_players(1);
    game.new_entity(info_at(0, 10, 10, 3 * RATIO_MASS));
    game.new_entity(info_at(0, 20, 20, 4 * RATIO_MASS));
    game.entities.core[0].characteristics.on_death = Some(OnDeathEffect::Split(2));
    game.entities.send_buffer2(0, EntityAction::KilledConfirmed(1));
    game.entities.send_buffer2(0, EntityAction::KilledConfirmed(1));
    CacheEntitySolver::solve_second(&mut game, 0);
    assert_eq!(game.entities.buffer[1].len(), 1);
    assert!(matches!(game.entities.buffer[1][0], EntityAction::AddMass(m) if m == 3 * RATIO_MASS));
}

#[test]
fn a_self_kill_sends_nothing() {
    let mut game = game_with_players(1);
    game.new_entity(info_at(0, 10, 10, 3 * RATIO_MASS));
    game.entities.send_buffer2(0, EntityAction::KilledConfirmed(0));
    CacheEntitySolver::solve_second(&mut game, 0);
    assert!(game.entities.buffer[0].is_empty());
}

#[test]
fn lifetime_grows_and_falls_back() {
    let mut game = game_with_players(1);
    game.new_entity(info_at(0, 10, 10, 3 * RATIO_MASS));
    game.entities.lifetime[0] = 200;
    NoInteractionsSolver::update_lifetime(&mut game, 0);
    assert_eq!(game.entities.lifetime[0], 100);
    NoInteractionsSolver::update_lifetime(&mut game, 0);
    assert_eq!(game.entities.lifetime[0], 101);
}

#[test]
fn running_timers_ask_to_count_down() {
    let mut game = game_with_players(1);
    game.new_entity(info_at(0, 10, 10, 3 * RATIO_MASS));
    game.entities.timer[0].inertia = Some(3);
    game.entities.timer[0].lifetime_left = Some(0);
    NoInteractionsSolver::update_timer(&mut game, 0);
    assert_eq!(game.entities.buffer[0].len(), 2);
    assert!(matches!(game.entities.buffer[0][0], EntityAction::AddInertiaTime(-1)));
    assert!(matches!(game.entities.buffer[0][1], EntityAction::Killed(0)));
}

#[test]
fn an_update_without_interactions_then_the_buffers_kill_an_expired_entity() {
    let mut game = game_with_players(1);
    game.new_entity(info_at(0, 10, 10, 3 * RATIO_MASS));
    game.new_entity(info_at(0, 50, 50, 3 * RATIO_MASS));
    game.entities.timer[0].lifetime_left = Some(0);
    game.entities.timer[1].lifetime_left = Some(2);
    EntitySolver::solve_no_interactions(&mut game);
    CacheEntitySolver::solve_first(&mut game, 0, &no_offset);
    CacheEntitySolver::solve_first(&mut game, 1, &no_offset);
    assert_eq!(game.entities.timer[1].lifetime_left, Some(1));
    CacheEntitySolver::solve_second(&mut game, 0);
    CacheGameSolver::solve(&mut game);
    assert_eq!(game.entities.len(), 1);
    assert_eq!(game.entities.position[0], Point2D::new(50, 50));
}

#[test]
fn spawn_info_follows_the_draw() {
    let game = game_with_players(1);
    let mut s = game.settings.auto_spawn.characteristics.duplicate();
    s.mass_min = 10;
    let mut settings = cells::game::settings::Settings::default();
    settings.auto_spawn.characteristics = s;
    settings.auto_spawn.mass = AutoSpawnMass::Random(vec![5, 50]);
    settings.auto_spawn.position = SpawnPosition::Exact(3, 4);
    let draw = SpawnDraw { position: Point2D::new(1, 1), mass: 0, mass_index: 0, color_index: 2, texture_index: 5 };
    let info = MapSolver::spawn_info(&settings.auto_spawn, draw);
    assert_eq!(info.player, 0);
    assert_eq!(info.position, Point2D::new(3, 4));
    assert_eq!(info.mass, 10);
    assert_eq!(info.texture, 6);
    assert_eq!(info.color.center, [242, 13, 242, 255]);
}

#[test]
fn draws_stay_in_their_ranges() {
    let game = game_with_players(1);
    let max = game.map.max();
    let s = &game.settings.auto_spawn;
    for _ in 0..50 {
        let d = MapSolver::draw(s, max);
        assert!(d.position.x >= 0 && d.position.x < max.width);
        assert!(d.position.y >= 0 && d.position.y < max.height);
        assert!(d.color_index < 6);
        assert!(d.texture_index < 12);
    }
}

#[test]
fn auto_spawn_stops_past_the_cap() {
    let mut game = game_with_players(1);
    game.settings.max_cells_spawn = 4;
    game.settings.auto_spawn.amount = 10;
    MapSolver::auto_spawn(&mut game);
    assert_eq!(game.entities.len(), 5);
    for i in 0..5 {
        assert_eq!(game.entities.mass[i], RATIO_MASS);
        assert_eq!(game.entities.core[i].player, 0);
    }
}

#[test]
fn auto_spawn_with_exact_settings() {
    let mut game = game_with_players(1);
    game.settings.auto_spawn.amount = 2;
    game.settings.auto_spawn.position = SpawnPosition::Exact(-10, 77);
    game.settings.auto_spawn.mass = AutoSpawnMass::Exact(3 * RATIO_MASS);
    game.settings.auto_spawn.color = AutoSpawnEntityColor::Custom(EntityColor::default());
    game.settings.auto_spawn.texture = AutoSpawnEntityTexture::CustomIndex(9);
    MapSolver::auto_spawn(&mut game);
    assert_eq!(game.entities.len(), 2);
    assert_eq!(game.entities.position[1], Point2D::new(0, 77));
    assert_eq!(game.entities.mass[1], 3 * RATIO_MASS);
    assert_eq!(game.entities.core[1].index.texture, 9);
}

#[test]
fn update_map_moves_records_and_clears_flags() {
    let mut game = game_with_players(1);
    game.new_entity(info_at(0, 5, 5, 2_000_000));
    game.new_entity(info_at(0, 15_000, 5, 2_000_000));
    game.entities.position[0] = Point2D::new(25_000, 35_000);
    game.entities.flags[0].insert(MOVED);
    game.entities.position[1] = Point2D::new(15_500, 9_000);
    game.entities.flags[1].insert(MASS_CHANGED);
    MapSolver::update_map(&mut game);
    assert_eq!(game.entities.index_matrix_simple[0].xyz().0, 2);
    assert_eq!(game.entities.index_matrix_simple[0].xyz().1, 3);
    assert_eq!(game.entities.index_matrix_simple[1].xyz().0, 1);
    assert_eq!(game.entities.index_matrix_simple[1].xyz().1, 0);
    for i in 0..2 {
        assert!(!game.entities.flags[i].contains(MOVED));
        assert!(!game.entities.flags[i].contains(MASS_CHANGED));
        assert!(!game.entities.flags[i].contains(MATRIX_SIMPLE_TO_CHANGE));
    }
}

#[test]
fn map_solver_update_spawns_and_keeps_the_game_sound() {
    let mut game = game_with_players(1);
    game.settings.auto_spawn.amount = 3;
    MapSolver::solve(&mut game);
    assert_eq!(game.entities.len(), 3);
    for i in 0..3 {
        let ix = game.entities.index_matrix_simple[i];
        let p = game.entities.position[i];
        assert_eq!(ix.x as i32, p.x / 10_000);
        assert_eq!(ix.y as i32, p.y / 10_000);
    }
}

fn game_with_three_entities() -> Game {
    let mut game = game_with_players(2);
    for k in 0..3 {
        game.new_entity(info_at(0, 10 * k, 10, 50));
    }
    game
}

#[test]
fn cache_player_kills_from_the_largest_position() {
    let mut game = game_with_three_entities();
    assert_eq!(game.players[0].entities, vec![0, 1, 2]);
    game.players[0].buffer.push(PlayerAction::KillEntity(0));
    game.players[0].buffer.push(PlayerAction::KillEntity(2));
    CachePlayerSolver::solve(&mut game);
    assert_eq!(game.players[0].entities, vec![1]);
    assert_eq!(game.entities.core[1].index.player, 0);
    assert!(game.players[0].buffer.is_empty());
}

#[test]
fn cache_player_adds_at_the_end_of_the_list() {
    let mut game = game_with_three_entities();
    game.players[1].buffer.push(PlayerAction::AddEntity(2));
    game.players[1].buffer.push(PlayerAction::AddEntity(0));
    CachePlayerSolver::solve(&mut game);
    assert_eq!(game.players[1].entities, vec![2, 0]);
    assert_eq!(game.entities.core[2].index.player, 0);
    assert_eq!(game.entities.core[0].index.player, 1);
    assert_eq!(game.players[0].entities, vec![0, 1, 2]);
}

#[test]
fn cache_player_move_sets_the_entry_to_the_entity() {
    let mut game = game_with_three_entities();
    game.players[0].entities = vec![7, 7, 7];
    let handle = game.entities.core[1].index.main_ptr;
    game.players[0].buffer.push(PlayerAction::Move(handle));
    CachePlayerSolver::solve(&mut game);
    assert_eq!(game.players[0].entities, vec![7, 1, 7]);
}

#[test]
fn cache_player_empty_buffers_change_nothing() {
    let mut game = game_with_three_entities();
    CachePlayerSolver::solve(&mut game);
    assert_eq!(game.players[0].entities, vec![0, 1, 2]);
    assert!(game.players[1].entities.is_empty());
    for k in 0..3 {
        assert_eq!(game.entities.core[k].index.player, k);
    }
}

#[test]
fn the_plan_follows_the_state() {
    let none = UpdatePlan { check_events: false, update_gui: false, update_world: false, update_drawing_buffer: false };
    assert_eq!(GameSolver::plan(GameState::MainMenu), none);
    let editor = UpdatePlan { check_events: true, update_gui: true, update_world: false, update_drawing_buffer: true };
    assert_eq!(GameSolver::plan(GameState::Editor), editor);
    let playing = UpdatePlan { check_events: true, update_gui: true, update_world: true, update_drawing_buffer: true };
    assert_eq!(GameSolver::plan(GameState::Playing), playing);
}

#[test]
fn the_update_counter_wraps_after_a_thousand() {
    let mut game = game_with_players(0);
    assert_eq!(game.step.actual_count, 0);
    GameSolver::count_update(&mut game);
    assert_eq!(game.step.actual_count, 1);
    game.step.actual_count = 999;
    GameSolver::count_update(&mut game);
    assert_eq!(game.step.actual_count, 1000);
    GameSolver::count_update(&mut game);
    assert_eq!(game.step.actual_count, 0);
}

#[test]
fn the_heavier_entity_of_a_player_eats_its_mergeable_twin() {
    let mut game = game_with_players(2);
    game.new_entity(info_at(0, 10, 10, 5 * RATIO_MASS));
    game.new_entity(info_at(0, 12, 10, 3 * RATIO_MASS));
    game.entities.core[1].characteristics.mergeable = true;
    EatingSolver::manage_kill(&mut game, 0, 1, false, true);
    assert!(matches!(game.entities.buffer[1].as_slice(), [EntityAction::Killed(0)]));
    EatingSolver::manage_kill(&mut game, 1, 0, true, true);
    assert!(game.entities.buffer[0].is_empty());
}

#[test]
fn equal_twins_are_eaten_by_the_later_one() {
    let mut game = game_with_players(1);
    game.new_entity(info_at(0, 10, 10, 5 * RATIO_MASS));
    game.new_entity(info_at(0, 12, 10, 5 * RATIO_MASS));
    game.entities.core[0].characteristics.mergeable = true;
    game.entities.core[1].characteristics.mergeable = true;
    EatingSolver::manage_kill(&mut game, 0, 1, false, true);
    assert!(game.entities.buffer[1].is_empty());
    EatingSolver::manage_kill(&mut game, 1, 0, false, true);
    assert!(matches!(game.entities.buffer[0].as_slice(), [EntityAction::Killed(1)]));
}

#[test]
fn twins_waiting_to_merge_do_not_eat() {
    let mut game = game_with_players(1);
    game.new_entity(info_at(0, 10, 10, 5 * RATIO_MASS));
    game.new_entity(info_at(0, 12, 10, 3 * RATIO_MASS));
    game.entities.core[1].characteristics.mergeable = true;
    game.entities.timer[0].mergeable = Some(10);
    EatingSolver::manage_kill(&mut game, 0, 1, true, true);
    assert!(game.entities.buffer[1].is_empty());
}

#[test]
fn another_player_is_eaten_when_heavier_and_within_reach() {
    let mut game = game_with_players(2);
    game.new_entity(info_at(0, 10, 10, 5 * RATIO_MASS));
    game.new_entity(info_at(1, 12, 10, 3 * RATIO_MASS));
    EatingSolver::manage_kill(&mut game, 0, 1, true, false);
    assert!(game.entities.buffer[1].is_empty());
    EatingSolver::manage_kill(&mut game, 0, 1, false, true);
    assert!(game.entities.buffer[1].is_empty());
    EatingSolver::manage_kill(&mut game, 0, 1, true, true);
    assert!(matches!(game.entities.buffer[1].as_slice(), [EntityAction::Killed(0)]));
    game.entities.core[0].characteristics.invincible = true;
    EatingSolver::manage_kill(&mut game, 1, 0, true, true);
    assert!(game.entities.buffer[0].is_empty());
}

#[test]
fn intersect_with_lists_the_cells_the_square_meets() {
    let mut game = game_with_players(1);
    game.new_entity(info_at(0, 15_000, 25_000, 5 * RATIO_MASS));
    let m = &game.map.matrix_simple;
    assert_eq!(m.intersect_with(&game.entities, 0, 5_000), vec![(1, 2)]);
    assert_eq!(
        m.intersect_with(&game.entities, 0, 6_000),
        vec![(0, 1), (0, 2), (0, 3), (1, 1), (1, 2), (1, 3), (2, 1), (2, 2), (2, 3)]
    );
}

#[test]
fn intersect_with_stays_inside_the_grid() {
    let mut game = game_with_players(1);
    game.new_entity(info_at(0, 100, 100, 5 * RATIO_MASS));
    let m = &game.map.matrix_simple;
    assert_eq!(m.intersect_with(&game.entities, 0, 15_000), vec![(0, 0), (0, 1), (1, 0), (1, 1)]);
}

#[test]
fn a_light_entity_meets_the_records_of_the_cells_its_square_meets() {
    let mut game = game_with_players(1);
    game.new_entity(info_at(0, 15_000, 25_000, 5 * RATIO_MASS));
    game.new_entity(info_at(0, 16_000, 26_000, 5 * RATIO_MASS));
    game.new_entity(info_at(0, 5_000, 35_000, 5 * RATIO_MASS));
    game.new_entity(info_at(0, 500_000, 500_000, 5 * RATIO_MASS));
    let found = EatingSolver::candidates(&game, 0, 5_000);
    assert_eq!(found, vec![(1, Point2D::new(16_000, 26_000))]);
}

#[test]
fn a_heavy_entity_meets_every_cell_of_its_scan() {
    let mut game = game_with_players(1);
    game.new_entity(info_at(0, 15_000, 25_000, 20_000 * RATIO_MASS));
    game.new_entity(info_at(0, 16_000, 26_000, 5 * RATIO_MASS));
    game.new_entity(info_at(0, 5_000, 35_000, 5 * RATIO_MASS));
    game.new_entity(info_at(0, 500_000, 500_000, 5 * RATIO_MASS));
    assert_eq!(game.entities.mass[0], 20_000 * RATIO_MASS);
    let found = EatingSolver::candidates(&game, 0, 5_000);
    assert_eq!(found, vec![(2, Point2D::new(5_000, 35_000)), (1, Point2D::new(16_000, 26_000))]);
}

fn thrower_at(x: i32, y: i32, mass: i64) -> EntityInfo {
    let mut info = info_at(0, x, y, mass);
    info.characteristics.throw_entity = Some(ThrowEntityInfo::default());
    info.texture = 4;
    info
}

#[test]
fn a_heavy_thrower_queues_one_entity_per_offset() {
    let mut game = game_with_players(1);
    game.new_entity(thrower_at(50_000, 60_000, 300 * RATIO_MASS));
    let offsets = vec![Vector2D::new(100, 0), Vector2D::new(0, -250)];
    ThrowingEntitySolver::solve(&mut game, 0, &offsets);
    assert_eq!(game.buffer_add_entity.len(), 2);
    assert_eq!(game.buffer_add_entity[0].position, Point2D::new(50_100, 60_000));
    assert_eq!(game.buffer_add_entity[1].position, Point2D::new(50_000, 59_750));
    assert_eq!(game.buffer_add_entity[0].mass, 2_000_000);
    assert_eq!(game.buffer_add_entity[0].player, 0);
    assert_eq!(game.buffer_add_entity[1].texture, 4);
    assert_eq!(game.entities.buffer[0].len(), 2);
    assert!(matches!(game.entities.buffer[0][1], EntityAction::AddMass(-1_000_000)));
}

#[test]
fn a_light_thrower_throws_nothing() {
    let mut game = game_with_players(1);
    game.new_entity(thrower_at(50_000, 60_000, 100 * RATIO_MASS));
    ThrowingEntitySolver::solve(&mut game, 0, &vec![Vector2D::new(100, 0)]);
    assert!(game.buffer_add_entity.is_empty());
    assert!(game.entities.buffer[0].is_empty());
}

#[test]
fn thrown_colours_and_textures_come_from_the_lists() {
    let mut game = game_with_players(1);
    let mut info = thrower_at(50_000, 60_000, 300 * RATIO_MASS);
    let red = Colour { center: [255, 0, 0, 255], edge: [255, 0, 0, 255] };
    let blue = Colour { center: [0, 0, 255, 255], edge: [0, 0, 255, 255] };
    let mut t = ThrowEntityInfo::default();
    t.color = ThrownEntityColor::Random(vec![red, blue]);
    t.texture = ThrownEntityTexture::Random(vec![7, 9]);
    info.characteristics.throw_entity = Some(t);
    game.new_entity(info);
    let offsets = vec![Vector2D::new(0, 0); 10];
    ThrowingEntitySolver::solve(&mut game, 0, &offsets);
    assert_eq!(game.buffer_add_entity.len(), 10);
    for e in game.buffer_add_entity.iter() {
        assert!(e.color.center == red.center || e.color.center == blue.center);
        assert_eq!(e.color.center, e.color.edge);
        assert!(e.texture == 7 || e.texture == 9);
    }
}

#[test]
fn twins_collide_only_while_one_waits_to_merge() {
    let mut game = game_with_players(2);
    game.new_entity(info_at(0, 10, 10, 5 * RATIO_MASS));
    game.new_entity(info_at(0, 12, 10, 5 * RATIO_MASS));
    game.new_entity(info_at(1, 14, 10, 5 * RATIO_MASS));
    assert!(!check_entity(&game, 0, 1));
    game.entities.timer[0].mergeable = Some(5);
    assert!(check_entity(&game, 0, 1));
    assert!(check_entity(&game, 1, 0));
    assert!(!check_entity(&game, 0, 2));
    game.entities.timer[1].collision = Some(2);
    assert!(!check_entity(&game, 0, 1));
}

#[test]
fn spawned_entities_wait_for_nothing_from_the_grid() {
    let mut game = game_with_players(1);
    game.settings.auto_spawn.amount = 4;
    MapSolver::solve(&mut game);
    for i in 0..4 {
        assert!(!game.entities.flags[i].contains(MASS_CHANGED));
        assert!(!game.entities.flags[i].contains(MATRIX_SIMPLE_TO_CHANGE));
        assert!(!game.entities.flags[i].contains(MOVED));
    }
}

#[test]
fn of_two_entities_of_different_players_only_the_heavier_eats() {
    let mut game = game_with_players(2);
    game.new_entity(info_at(0, 10, 10, 50 * RATIO_MASS));
    game.new_entity(info_at(1, 20, 10, 20 * RATIO_MASS));
    EatingSolver::manage_kill(&mut game, 0, 1, true, true);
    EatingSolver::manage_kill(&mut game, 1, 0, false, true);
    assert_eq!(game.entities.buffer[1].len(), 1);
    assert!(game.entities.buffer[0].is_empty());
}
