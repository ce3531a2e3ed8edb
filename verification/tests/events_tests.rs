use cells::entity::{EntityInfo, RATIO_MASS};
use cells::game::player::PlayerInfo;
use cells::game::{Game, GameInfo, GameState};
use cells::game::gui::{Action, GUIState, GuiComponent, MenuEvent, MenuRequest, is_on_gui};
use cells::game_solver::events_solver::EventsSolver;
use cells::geometry::{Point2D, Size2D, Vector2D};
use cells::entity::EntityAction;

fn game_with_players(n: usize) -> Game {
    let mut game = Game::new(GameInfo { threads: 1 });
    for _ in 0..n {
        game.new_player(PlayerInfo::default());
    }
    game
}

fn info_at(player: usize, x: i32, y: i32, mass: i64) -> EntityInfo {
    let mut info = EntityInfo::default();
    info.player = player;
    info.position = Point2D::new(x, y);
    info.mass = mass;
    info
}

#[test]
fn revive_gives_player_one_an_entity_when_the_local_player_has_none() {
    let mut game = game_with_players(2);
    EventsSolver::revive_at(&mut game, -4, 123);
    assert_eq!(game.entities.len(), 1);
    assert_eq!(game.entities.core[0].player, 1);
    assert_eq!(game.entities.position[0], Point2D::new(0, 123));
    assert_eq!(game.entities.mass[0], 1_000_000);
}

#[test]
fn revive_does_nothing_while_the_local_player_lives() {
    let mut game = game_with_players(2);
    game.new_entity(info_at(1, 10, 10, 2 * RATIO_MASS));
    EventsSolver::revive(&mut game);
    assert_eq!(game.entities.len(), 1);
}

#[test]
fn random_revive_lands_on_the_map() {
    let mut game = game_with_players(2);
    EventsSolver::revive(&mut game);
    assert_eq!(game.entities.len(), 1);
    let p = game.entities.position[0];
    assert!(p.x >= 0 && p.x < 999_999);
    assert!(p.y >= 0 && p.y < 999_999);
}

#[test]
fn make_mergeable_clears_the_local_timers_only() {
    let mut game = game_with_players(2);
    game.new_entity(info_at(1, 10, 10, 2 * RATIO_MASS));
    game.new_entity(info_at(0, 20, 20, 2 * RATIO_MASS));
    game.entities.timer[0].mergeable = Some(30);
    game.entities.timer[1].mergeable = Some(30);
    EventsSolver::make_mergeable(&mut game);
    assert_eq!(game.entities.timer[0].mergeable, None);
    assert_eq!(game.entities.timer[1].mergeable, Some(30));
}

#[test]
fn add_mass_feeds_the_local_entities() {
    let mut game = game_with_players(2);
    game.new_entity(info_at(1, 10, 10, 2 * RATIO_MASS));
    game.new_entity(info_at(0, 20, 20, 2 * RATIO_MASS));
    EventsSolver::add_mass(&mut game);
    assert_eq!(game.entities.mass[0], 102 * RATIO_MASS);
    assert_eq!(game.entities.mass[1], 2 * RATIO_MASS);
}

#[test]
fn teleport_moves_the_local_entities_and_their_records() {
    let mut game = game_with_players(2);
    game.new_entity(info_at(1, 10, 10, 2 * RATIO_MASS));
    game.new_entity(info_at(1, 20, 20, 2 * RATIO_MASS));
    EventsSolver::teleport(&mut game, Point2D::new(55_555, 2_000_000));
    for i in 0..2 {
        assert_eq!(game.entities.position[i], Point2D::new(55_555, 999_999));
        let (x, y, _) = game.entities.index_matrix_simple[i].xyz();
        assert_eq!((x, y), (5, 99));
    }
}

#[test]
fn selection_takes_the_entities_inside_the_rectangle() {
    let mut game = game_with_players(1);
    game.new_entity(info_at(0, 100, 100, 2 * RATIO_MASS));
    game.new_entity(info_at(0, 15_000, 25_000, 2 * RATIO_MASS));
    game.new_entity(info_at(0, 50_000, 50_000, 2 * RATIO_MASS));
    let (sel, handles) = EventsSolver::select(&game, Point2D::new(20_000, 30_000), Point2D::new(0, 0));
    let mut sorted = sel.clone();
    sorted.sort();
    assert_eq!(sorted, vec![0, 1]);
    assert_eq!(handles.len(), 2);
    for k in 0..2 {
        assert_eq!(handles[k], game.entities.core[sel[k]].index.main_ptr);
    }
}

#[test]
fn selection_excludes_the_far_edges() {
    let mut game = game_with_players(1);
    game.new_entity(info_at(0, 100, 100, 2 * RATIO_MASS));
    let (sel, _) = EventsSolver::select(&game, Point2D::new(0, 0), Point2D::new(100, 200));
    assert!(sel.is_empty());
    let (sel, _) = EventsSolver::select(&game, Point2D::new(0, 0), Point2D::new(101, 101));
    assert_eq!(sel, vec![0]);
}

#[test]
fn editor_selects_then_deletes() {
    let mut game = game_with_players(1);
    game.new_entity(info_at(0, 100, 100, 2 * RATIO_MASS));
    game.new_entity(info_at(0, 900_000, 900_000, 2 * RATIO_MASS));
    let h1 = game.entities.core[1].index.main_ptr;
    game.editor_state.selection = Some(Point2D::new(0, 0));
    EventsSolver::update_selection(&mut game, Point2D::new(1_000, 1_000));
    assert_eq!(game.editor_state.selected, Some(vec![0]));
    EventsSolver::delete_selected(&mut game);
    assert_eq!(game.entities.len(), 1);
    assert!(game.editor_state.selected.is_none());
    assert!(game.editor_state.selected_atomic.is_none());
    let i1 = game.entities.main_ptr_upgrade(h1).unwrap();
    assert_eq!(game.entities.position[i1], Point2D::new(900_000, 900_000));
}

#[test]
fn editor_click_places_the_edited_entity() {
    let mut game = game_with_players(1);
    game.editor_state.new_entity_on_click = true;
    game.editor_state.new_entity.mass = 5 * RATIO_MASS;
    EventsSolver::place_entity(&mut game, Point2D::new(42, 43));
    assert_eq!(game.entities.len(), 1);
    assert_eq!(game.entities.position[0], Point2D::new(42, 43));
    assert_eq!(game.entities.mass[0], 5 * RATIO_MASS);
    game.editor_state.hovered = true;
    EventsSolver::place_entity(&mut game, Point2D::new(42, 43));
    assert_eq!(game.entities.len(), 1);
}

#[test]
fn edited_entity_follows_the_pointer_within_the_map() {
    let mut game = game_with_players(1);
    game.editor_state.new_entity.player = 3;
    EventsSolver::follow_pointer(&mut game, Point2D::new(-7, 1_500_000));
    assert_eq!(game.editor_state.new_entity.position, Point2D::new(0, 999_999));
    assert_eq!(game.editor_state.new_entity.player, 0);
}

#[test]
fn point_to_steers_only_the_local_entities() {
    let mut game = game_with_players(2);
    game.new_entity(info_at(1, 10, 10, 2 * RATIO_MASS));
    game.new_entity(info_at(0, 20, 20, 2 * RATIO_MASS));
    EventsSolver::point_to(&mut game, Some(Point2D::new(70, 80)));
    assert_eq!(game.entities.direction[0], Some(Point2D::new(70, 80)));
    assert_eq!(game.entities.direction[1], None);
    EventsSolver::point_to(&mut game, None);
    assert_eq!(game.entities.direction[0], None);
}

#[test]
fn reset_masses_sets_the_least_mass_on_the_local_entities() {
    let mut game = game_with_players(2);
    let mut info = info_at(1, 10, 10, 70 * RATIO_MASS);
    info.characteristics.mass_min = 10 * RATIO_MASS;
    game.new_entity(info);
    game.new_entity(info_at(0, 20, 20, 7 * RATIO_MASS));
    EventsSolver::reset_masses(&mut game);
    assert_eq!(game.entities.mass[0], 10 * RATIO_MASS);
    assert_eq!(game.entities.mass[1], 7 * RATIO_MASS);
}

#[test]
fn the_d_key_switches_between_play_and_editor() {
    let mut game = game_with_players(1);
    assert_eq!(game.state, GameState::Playing);
    EventsSolver::switch_mode(&mut game);
    assert_eq!(game.state, GameState::Editor);
    EventsSolver::switch_mode(&mut game);
    assert_eq!(game.state, GameState::Playing);
    game.state = GameState::MainMenu;
    EventsSolver::switch_mode(&mut game);
    assert_eq!(game.state, GameState::MainMenu);
}

#[test]
fn a_selection_starts_only_in_the_selection_tabs() {
    let mut game = game_with_players(1);
    game.editor_state.selected = Some(vec![3]);
    EventsSolver::start_selection(&mut game, Point2D::new(5, 6));
    assert_eq!(game.editor_state.selection, None);
    assert_eq!(game.editor_state.selected, Some(vec![3]));
    game.editor_state.tab = 2;
    EventsSolver::start_selection(&mut game, Point2D::new(5, 6));
    assert_eq!(game.editor_state.selection, Some(Point2D::new(5, 6)));
    assert_eq!(game.editor_state.selected, None);
    EventsSolver::end_selection(&mut game);
    assert_eq!(game.editor_state.selection, None);
}

#[test]
fn food_is_thrown_from_a_heavy_entity() {
    let mut game = game_with_players(2);
    game.new_entity(info_at(1, 50_000, 50_000, 20 * RATIO_MASS));
    EventsSolver::throw_food(&mut game, 0, Vector2D::new(300, -400));
    assert_eq!(game.entities.len(), 2);
    assert_eq!(game.entities.core[1].player, 0);
    assert_eq!(game.entities.position[1], Point2D::new(50_300, 49_600));
    assert_eq!(game.entities.mass[1], 2 * RATIO_MASS);
    assert!(matches!(game.entities.buffer[0].as_slice(), [EntityAction::AddMass(m)] if *m == -2 * RATIO_MASS));
    assert_eq!(game.entities.core[1].color.center, game.entities.core[0].color.center);
}

#[test]
fn a_light_entity_throws_no_food() {
    let mut game = game_with_players(2);
    game.new_entity(info_at(1, 50_000, 50_000, 10 * RATIO_MASS));
    EventsSolver::throw_food(&mut game, 0, Vector2D::new(300, -400));
    assert_eq!(game.entities.len(), 1);
    assert!(game.entities.buffer[0].is_empty());
}

#[test]
fn a_space_split_halves_the_entity() {
    let mut game = game_with_players(2);
    game.new_entity(info_at(1, 50_000, 50_000, 30_000_001));
    EventsSolver::split_entity(&mut game, 0, Vector2D::new(-100, 100));
    assert_eq!(game.entities.len(), 2);
    assert_eq!(game.entities.mass[0], 15_000_000);
    assert_eq!(game.entities.mass[1], 15_000_000);
    assert_eq!(game.entities.core[1].player, 1);
    assert_eq!(game.entities.position[1], Point2D::new(49_900, 50_100));
    assert_eq!(game.entities.timer[0].mergeable, Some(1_000));
    assert_eq!(game.entities.timer[1].inertia, Some(20));
}

#[test]
fn a_light_entity_does_not_split_on_space() {
    let mut game = game_with_players(2);
    game.new_entity(info_at(1, 50_000, 50_000, 20_000_000));
    EventsSolver::split_entity(&mut game, 0, Vector2D::new(-100, 100));
    assert_eq!(game.entities.len(), 1);
    assert_eq!(game.entities.mass[0], 20_000_000);
}

#[test]
fn the_menu_opens_and_closes_with_the_arrow() {
    use_menu(|game| {
        let (s, r) = GUIState::Closed.step(MenuEvent::Arrow, game);
        assert!(matches!(s, GUIState::Open(Action::Nothing)));
        assert!(matches!(r, MenuRequest::Nothing));
        let (s, _) = s.step(MenuEvent::Arrow, game);
        assert!(matches!(s, GUIState::Closed));
        let (s, _) = s.step(MenuEvent::Options, game);
        assert!(matches!(s, GUIState::Closed));
    });
}

#[test]
fn the_editor_button_opens_the_editor_while_playing() {
    use_menu(|game| {
        game.editor_state.selection = Some(Point2D::new(1, 2));
        let (s, _) = GUIState::Open(Action::Nothing).step(MenuEvent::Editor, game);
        assert!(matches!(s, GUIState::Open(Action::Editor)));
        assert_eq!(game.state, GameState::Editor);
        assert_eq!(game.editor_state.selection, None);
        let (s, _) = s.step(MenuEvent::Editor, game);
        assert!(matches!(s, GUIState::Open(Action::Editor)));
        let (s, _) = s.step(MenuEvent::LeaveEditor, game);
        assert!(matches!(s, GUIState::Open(Action::LeaveEditor)));
        assert_eq!(game.state, GameState::Playing);
    });
}

#[test]
fn a_confirmed_map_is_asked_for_and_closes_the_menu() {
    use_menu(|game| {
        let (s, _) = GUIState::Open(Action::Nothing).step(MenuEvent::Maps, game);
        assert!(matches!(s, GUIState::Open(Action::OpenMap(None))));
        let (s, _) = s.step(MenuEvent::ChooseMap("classic".to_string()), game);
        assert!(matches!(&s, GUIState::Open(Action::OpenMap(Some(n))) if n == "classic"));
        let (s, _) = s.step(MenuEvent::BackToMaps, game);
        assert!(matches!(s, GUIState::Open(Action::OpenMap(None))));
        let (s, _) = s.step(MenuEvent::ChooseMap("trail".to_string()), game);
        assert!(!game.step.changed_map);
        let (s, r) = s.step(MenuEvent::Confirm, game);
        assert!(matches!(s, GUIState::Closed));
        assert!(matches!(&r, MenuRequest::LoadMap(n) if n == "trail"));
        assert!(game.step.changed_map);
    });
}

#[test]
fn quitting_needs_a_confirmation_and_return_goes_back() {
    use_menu(|game| {
        let (s, r) = GUIState::Open(Action::Nothing).step(MenuEvent::Quit, game);
        assert!(matches!(s, GUIState::Open(Action::Quit)));
        assert!(matches!(r, MenuRequest::Nothing));
        let (s, r) = s.step(MenuEvent::Confirm, game);
        assert!(matches!(r, MenuRequest::Quit));
        let (s, _) = s.step(MenuEvent::Back, game);
        assert!(matches!(s, GUIState::Open(Action::Nothing)));
    });
}

fn use_menu(f: impl FnOnce(&mut Game)) {
    let mut game = game_with_players(2);
    f(&mut game);
}

#[test]
fn a_point_is_on_the_interface_inside_a_component() {
    let list = vec![
        GuiComponent { position: Point2D::new(0, 0), size: Size2D::new(100, 50) },
        GuiComponent { position: Point2D::new(500, 500), size: Size2D::new(10, 10) },
    ];
    assert!(is_on_gui(&list, Point2D::new(0, 0)));
    assert!(is_on_gui(&list, Point2D::new(505, 509)));
    assert!(!is_on_gui(&list, Point2D::new(100, 10)));
    assert!(!is_on_gui(&list, Point2D::new(510, 505)));
    assert!(!is_on_gui(&Vec::new(), Point2D::new(1, 1)));
}

#[test]
fn an_editor_frame_ends_with_nothing_hovered() {
    let mut game = game_with_players(1);
    game.editor_state.hovered = true;
    EventsSolver::end_editor_frame(&mut game);
    assert!(!game.editor_state.hovered);
}

#[test]
fn space_splits_the_heavy_local_entities_in_order_up_to_the_cap() {
    let mut game = game_with_players(2);
    game.settings.max_split = 5;
    game.new_entity(info_at(1, 10_000, 10_000, 30_000_000));
    game.new_entity(info_at(1, 20_000, 20_000, 10_000_000));
    game.new_entity(info_at(1, 30_000, 30_000, 50_000_000));
    game.new_entity(info_at(1, 40_000, 40_000, 60_000_000));
    let offsets = vec![Vector2D::new(100, 0), Vector2D::new(0, 100), Vector2D::new(-100, 0), Vector2D::new(0, -100)];
    EventsSolver::split_local(&mut game, &offsets);
    // Entry 0 splits (the list grows to 5, the cap); the light entry 1
    // does not; entries 2 and 3 find the list at the cap.
    assert_eq!(game.entities.len(), 5);
    assert_eq!(game.entities.mass[0], 15_000_000);
    assert_eq!(game.entities.mass[4], 15_000_000);
    assert_eq!(game.entities.position[4], Point2D::new(10_100, 10_000));
    assert_eq!(game.entities.mass[2], 50_000_000);
    assert_eq!(game.entities.mass[3], 60_000_000);
    assert_eq!(game.players[1].entities.len(), 5);
}

#[test]
fn space_splits_nothing_when_the_local_list_is_at_the_cap() {
    let mut game = game_with_players(2);
    game.settings.max_split = 2;
    game.new_entity(info_at(1, 10_000, 10_000, 30_000_000));
    game.new_entity(info_at(1, 30_000, 30_000, 50_000_000));
    EventsSolver::split_local(&mut game, &vec![Vector2D::new(100, 0), Vector2D::new(-100, 0)]);
    assert_eq!(game.entities.len(), 2);
    assert_eq!(game.entities.mass[0], 30_000_000);
}

#[test]
fn space_splits_every_heavy_local_entity_below_the_cap() {
    let mut game = game_with_players(2);
    game.new_entity(info_at(1, 10_000, 10_000, 30_000_000));
    game.new_entity(info_at(1, 30_000, 30_000, 50_000_000));
    let offsets = vec![Vector2D::new(100, 0), Vector2D::new(-100, 0)];
    EventsSolver::split_local(&mut game, &offsets);
    assert_eq!(game.entities.len(), 4);
    assert_eq!(game.entities.mass[1], 25_000_000);
    assert_eq!(game.entities.mass[3], 25_000_000);
    assert_eq!(game.entities.position[3], Point2D::new(29_900, 30_000));
    assert_eq!(game.players[1].entities.len(), 4);
}

#[test]
fn holding_w_throws_the_ratio_of_pieces_from_each_heavy_local_entity() {
    let mut game = game_with_players(2);
    game.settings.local_player_food_settings.throw_ratio = 3;
    game.new_entity(info_at(1, 50_000, 50_000, 20 * RATIO_MASS));
    game.new_entity(info_at(1, 70_000, 70_000, 5 * RATIO_MASS));
    game.new_entity(info_at(1, 90_000, 90_000, 30 * RATIO_MASS));
    let offsets = vec![Vector2D::new(300, -400), Vector2D::new(0, 0), Vector2D::new(-10, 10)];
    EventsSolver::throw_local(&mut game, &offsets);
    assert_eq!(game.entities.len(), 3 + 2 * 3);
    assert_eq!(game.entities.buffer[0].len(), 3);
    assert!(game.entities.buffer[1].is_empty());
    assert!(matches!(game.entities.buffer[2].as_slice(), [EntityAction::AddMass(_), EntityAction::AddMass(_), EntityAction::AddMass(m)] if *m == -2 * RATIO_MASS));
    for j in 3..6 {
        assert_eq!(game.entities.core[j].player, 0);
        assert_eq!(game.entities.position[j], Point2D::new(50_300, 49_600));
        assert_eq!(game.entities.mass[j], 2 * RATIO_MASS);
    }
    for j in 6..9 {
        assert_eq!(game.entities.position[j], Point2D::new(89_990, 90_010));
    }
    assert_eq!(game.entities.mass[0], 20 * RATIO_MASS);
    assert_eq!(game.players[0].entities.len(), 6);
}

#[test]
fn a_negative_throw_ratio_throws_nothing() {
    let mut game = game_with_players(2);
    game.settings.local_player_food_settings.throw_ratio = -2;
    game.new_entity(info_at(1, 50_000, 50_000, 20 * RATIO_MASS));
    EventsSolver::throw_local(&mut game, &vec![Vector2D::new(300, -400)]);
    assert_eq!(game.entities.len(), 1);
    assert!(game.entities.buffer[0].is_empty());
}

#[test]
fn a_selection_lists_the_entities_by_column_then_row() {
    let mut game = game_with_players(1);
    game.new_entity(info_at(0, 25_000, 5_000, 2 * RATIO_MASS));
    game.new_entity(info_at(0, 5_000, 25_000, 2 * RATIO_MASS));
    game.new_entity(info_at(0, 5_000, 5_000, 2 * RATIO_MASS));
    let (sel, _) = EventsSolver::select(&game, Point2D::new(0, 0), Point2D::new(40_000, 40_000));
    assert_eq!(sel, vec![2, 1, 0]);
}

#[test]
fn an_open_editor_page_keeps_the_editor_open_on_a_quiet_frame() {
    let mut game = game_with_players(2);
    let (state, _) = GUIState::Open(Action::Editor).step(MenuEvent::Frame, &mut game);
    assert!(matches!(state, GUIState::Open(Action::Editor)));
    assert_eq!(game.state, GameState::Editor);
    let (state, _) = GUIState::Closed.step(MenuEvent::Frame, &mut game);
    assert!(matches!(state, GUIState::Closed));
}
