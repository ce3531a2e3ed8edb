use vstd::prelude::*;
use crate::game::Game;
use super::no_interactions_solver::{NoInteractionsSolver, lifetime_after, timer_requests};

verus! {

/// The per-entity part of an update that needs no other entity. Velocity,
/// gravity, collisions, throwing and eating work on real numbers and run
/// beside it.
pub struct EntitySolver;

impl EntitySolver {
    /// Every entity ages by one update and sends what its count-downs ask
    /// for to its first buffer.
    pub fn solve_no_interactions(game: &mut Game)
        requires
            old(game).wf(),
            forall|i: int| 0 <= i < old(game).entities.lifetime@.len() ==> #[trigger] old(game).entities.lifetime@[i] < i32::MAX,
        ensures
            final(game).wf(),
            *final(game) == (Game {
                entities: crate::entity::entities::Entities {
                    lifetime: final(game).entities.lifetime,
                    buffer: final(game).entities.buffer,
                    ..old(game).entities
                },
                ..*old(game)
            }),
            final(game).entities.lifetime@.len() == old(game).entities.lifetime@.len(),
            final(game).entities.buffer@.len() == old(game).entities.buffer@.len(),
            forall|i: int| 0 <= i < old(game).entities.core@.len() ==> #[trigger] final(game).entities.lifetime@[i] == lifetime_after(
                old(game).entities.lifetime@[i],
            ),
            forall|i: int| 0 <= i < old(game).entities.core@.len() ==> #[trigger] final(game).entities.buffer@[i]@
                == old(game).entities.buffer@[i]@ + timer_requests(old(game).entities.timer@[i], i as usize),
    {
        let ghost g0 = *game;
        let n = game.entities.len();
        let mut i: usize = 0;
        while i < n
            invariant
                g0.wf(),
                game.wf(),
                n == g0.entities.core@.len(),
                i <= n,
                *game == (Game {
                    entities: crate::entity::entities::Entities {
                        lifetime: game.entities.lifetime,
                        buffer: game.entities.buffer,
                        ..g0.entities
                    },
                    ..g0
                }),
                game.entities.lifetime@.len() == n,
                game.entities.buffer@.len() == n,
                forall|j: int| 0 <= j < i ==> #[trigger] game.entities.lifetime@[j] == lifetime_after(g0.entities.lifetime@[j]),
                forall|j: int| i <= j < n ==> #[trigger] game.entities.lifetime@[j] == g0.entities.lifetime@[j],
                forall|j: int| 0 <= j < i ==> #[trigger] game.entities.buffer@[j]@ == g0.entities.buffer@[j]@ + timer_requests(
                    g0.entities.timer@[j],
                    j as usize,
                ),
                forall|j: int| i <= j < n ==> #[trigger] game.entities.buffer@[j] == g0.entities.buffer@[j],
                forall|j: int| 0 <= j < n ==> #[trigger] g0.entities.lifetime@[j] < i32::MAX,
            decreases n - i,
        {
            NoInteractionsSolver::solve(game, i);
            i = i + 1;
        }
    }
}

} // verus!
