pub mod map_solver;
pub mod position_solver;
pub mod cache_entity;
pub mod cache_game;
pub mod no_interactions_solver;
pub mod entity_solver;
pub mod events_solver;
pub mod cache_player;
pub mod eating_solver;
pub mod throwing_entity_solver;
pub mod collisions_solver;

use vstd::prelude::*;
use crate::game::{Game, GameState, GameStep};

verus! {

/// The parts of an update that run.
#[derive(Clone, Copy, PartialEq, Eq, Structural, Debug)]
pub struct UpdatePlan {
    pub check_events: bool,
    pub update_gui: bool,
    pub update_world: bool,
    pub update_drawing_buffer: bool,
}

/// The order of an update: what runs in each state of the game, and the
/// update counter.
pub struct GameSolver;

/// The update counter after one more update: it counts up to 1000, then
/// starts again from 0.
pub open spec fn next_count(count: int) -> int {
    if count < 1000 {
        count + 1
    } else {
        0
    }
}

/// A counter between 0 and 1000 stays between 0 and 1000.
pub proof fn lemma_count_stays_in_range(count: int)
    requires
        0 <= count <= 1000,
    ensures
        0 <= next_count(count) <= 1000,
        count == 1000 ==> next_count(count) == 0,
{
}

impl GameSolver {
    /// Nothing runs in the main menu; the editor checks the events,
    /// updates the interface and fills the drawing buffer; a game in play
    /// also updates the world, between the interface and the drawing.
    pub fn plan(state: GameState) -> (p: UpdatePlan)
        ensures
            p.check_events == (state != GameState::MainMenu),
            p.update_gui == (state != GameState::MainMenu),
            p.update_world == (state == GameState::Playing),
            p.update_drawing_buffer == (state != GameState::MainMenu),
    {
        match state {
            GameState::MainMenu => UpdatePlan {
                check_events: false,
                update_gui: false,
                update_world: false,
                update_drawing_buffer: false,
            },
            GameState::Editor => UpdatePlan {
                check_events: true,
                update_gui: true,
                update_world: false,
                update_drawing_buffer: true,
            },
            GameState::Playing => UpdatePlan {
                check_events: true,
                update_gui: true,
                update_world: true,
                update_drawing_buffer: true,
            },
        }
    }

    /// Counts one more update at the end of an update.
    pub fn count_update(game: &mut Game)
        ensures
            final(game).step.actual_count == next_count(old(game).step.actual_count as int),
            *final(game) == (Game {
                step: GameStep { actual_count: final(game).step.actual_count, ..old(game).step },
                ..*old(game)
            }),
    {
        let count = game.step.actual_count;
        game.step.actual_count = if count < 1_000 {
            count + 1
        } else {
            0
        };
    }
}

} // verus!
