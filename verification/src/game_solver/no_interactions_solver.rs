use vstd::prelude::*;
use crate::entity::{EntityAction, EntityTimer};
use crate::game::Game;

verus! {

/// The updates of an entity that need no other entity: its age and its
/// count-downs. The evolution of its mass is a real-number rate applied
/// beside this.
pub struct NoInteractionsSolver;

/// The age of an entity after one more update: it grows by one and falls
/// back to 100 past 200.
pub open spec fn lifetime_after(l: i32) -> i32 {
    if l + 1 > 200 {
        100
    } else {
        (l + 1) as i32
    }
}

/// The changes that the count-downs of `t` ask for, in order: each running
/// timer counts one down, and an entity whose lifetime is over is killed by
/// itself.
pub open spec fn timer_requests(t: EntityTimer, i: usize) -> Seq<EntityAction> {
    let s0 = Seq::<EntityAction>::empty();
    let s1 = if t.mergeable is Some { s0.push(EntityAction::AddMergeableTime(-1i32)) } else { s0 };
    let s2 = if t.inertia is Some { s1.push(EntityAction::AddInertiaTime(-1i32)) } else { s1 };
    let s3 = if t.collision is Some { s2.push(EntityAction::AddCollisionTime(-1i32)) } else { s2 };
    let s4 = if t.collision_ratio is Some { s3.push(EntityAction::AddCollisionRatioTime(-1i32)) } else { s3 };
    match t.lifetime_left {
        Some(l) => if l == 0 {
            s4.push(EntityAction::Killed(i))
        } else {
            s4.push(EntityAction::AddLifetimeLeftTime(-1i32))
        },
        None => s4,
    }
}

/// Each running count-down is asked to count one down, once, and only a
/// running one is; a running lifetime is counted down while some is left,
/// and the entity is killed by itself once none is.
pub proof fn lemma_running_timers_are_counted_down(t: EntityTimer, i: usize)
    ensures
        timer_requests(t, i).contains(EntityAction::AddMergeableTime(-1i32)) <==> t.mergeable is Some,
        timer_requests(t, i).contains(EntityAction::AddInertiaTime(-1i32)) <==> t.inertia is Some,
        timer_requests(t, i).contains(EntityAction::AddCollisionTime(-1i32)) <==> t.collision is Some,
        timer_requests(t, i).contains(EntityAction::AddCollisionRatioTime(-1i32)) <==> t.collision_ratio is Some,
        timer_requests(t, i).contains(EntityAction::AddLifetimeLeftTime(-1i32)) <==> (t.lifetime_left is Some
            && t.lifetime_left != Some(0i32)),
        timer_requests(t, i).contains(EntityAction::Killed(i)) <==> t.lifetime_left == Some(0i32),
        timer_requests(t, i).len() == (if t.mergeable is Some { 1int } else { 0 }) + (if t.inertia is Some { 1int } else { 0 })
            + (if t.collision is Some { 1int } else { 0 }) + (if t.collision_ratio is Some { 1int } else { 0 })
            + (if t.lifetime_left is Some { 1int } else { 0 }),
{
    let r = timer_requests(t, i);
    let s0 = Seq::<EntityAction>::empty();
    let s1 = if t.mergeable is Some { s0.push(EntityAction::AddMergeableTime(-1i32)) } else { s0 };
    let s2 = if t.inertia is Some { s1.push(EntityAction::AddInertiaTime(-1i32)) } else { s1 };
    let s3 = if t.collision is Some { s2.push(EntityAction::AddCollisionTime(-1i32)) } else { s2 };
    let s4 = if t.collision_ratio is Some { s3.push(EntityAction::AddCollisionRatioTime(-1i32)) } else { s3 };
    assert forall|k: int| 0 <= k < s4.len() implies {
        &&& s4[k] is AddMergeableTime ==> t.mergeable is Some
        &&& s4[k] is AddInertiaTime ==> t.inertia is Some
        &&& s4[k] is AddCollisionTime ==> t.collision is Some
        &&& s4[k] is AddCollisionRatioTime ==> t.collision_ratio is Some
        &&& !(s4[k] is AddLifetimeLeftTime)
        &&& !(s4[k] is Killed)
    } by {
        if k < s3.len() {
            if k < s2.len() {
                if k < s1.len() {
                } else {
                }
            }
        }
    }
    if t.mergeable is Some {
        assert(s1[0] == EntityAction::AddMergeableTime(-1i32));
        assert(r[0] == s1[0]);
    }
    if t.inertia is Some {
        assert(r[s2.len() - 1] == EntityAction::AddInertiaTime(-1i32));
    }
    if t.collision is Some {
        assert(r[s3.len() - 1] == EntityAction::AddCollisionTime(-1i32));
    }
    if t.collision_ratio is Some {
        assert(r[s4.len() - 1] == EntityAction::AddCollisionRatioTime(-1i32));
    }
    if t.lifetime_left is Some {
        assert(r[s4.len() as int] == r.last());
    }
}

/// Applied to the timers, what the count-downs ask for counts each running
/// count-down one down, stopping it when it reaches zero, and a running
/// lifetime with some left one down.
pub proof fn lemma_requests_count_timers_down(t: EntityTimer, i: usize)
    ensures
        ({
            let r = crate::game_solver::cache_entity::timer_fold(t, timer_requests(t, i));
            &&& r.mergeable == crate::game_solver::cache_entity::counted(t.mergeable, -1i32)
            &&& r.inertia == crate::game_solver::cache_entity::counted(t.inertia, -1i32)
            &&& r.collision == crate::game_solver::cache_entity::counted(t.collision, -1i32)
            &&& r.collision_ratio == crate::game_solver::cache_entity::counted(t.collision_ratio, -1i32)
            &&& r.lifetime_left == match t.lifetime_left {
                Some(l) => if l == 0 { Some(0i32) } else { Some((l - 1) as i32) },
                None => None,
            }
        }),
{
    use_timer_fold_steps(t, i);
}

/// Applying one more change is one more step.
proof fn lemma_fold_push(t0: EntityTimer, s: Seq<EntityAction>, a: EntityAction)
    ensures
        crate::game_solver::cache_entity::timer_fold(t0, s.push(a)) == crate::game_solver::cache_entity::timer_step(
            crate::game_solver::cache_entity::timer_fold(t0, s),
            a,
        ),
{
    assert(s.push(a).drop_last() =~= s);
}

#[verifier::spinoff_prover]
#[verifier::rlimit(40)]
proof fn use_timer_fold_steps(t: EntityTimer, i: usize)
    ensures
        ({
            let r = crate::game_solver::cache_entity::timer_fold(t, timer_requests(t, i));
            &&& r.mergeable == crate::game_solver::cache_entity::counted(t.mergeable, -1i32)
            &&& r.inertia == crate::game_solver::cache_entity::counted(t.inertia, -1i32)
            &&& r.collision == crate::game_solver::cache_entity::counted(t.collision, -1i32)
            &&& r.collision_ratio == crate::game_solver::cache_entity::counted(t.collision_ratio, -1i32)
            &&& r.lifetime_left == match t.lifetime_left {
                Some(l) => if l == 0 { Some(0i32) } else { Some((l - 1) as i32) },
                None => None,
            }
        }),
{
    let s0 = Seq::<EntityAction>::empty();
    let s1 = if t.mergeable is Some { s0.push(EntityAction::AddMergeableTime(-1i32)) } else { s0 };
    let s2 = if t.inertia is Some { s1.push(EntityAction::AddInertiaTime(-1i32)) } else { s1 };
    let s3 = if t.collision is Some { s2.push(EntityAction::AddCollisionTime(-1i32)) } else { s2 };
    let s4 = if t.collision_ratio is Some { s3.push(EntityAction::AddCollisionRatioTime(-1i32)) } else { s3 };
    let f0 = crate::game_solver::cache_entity::timer_fold(t, s0);
    assert(f0 == t);
    let f1 = crate::game_solver::cache_entity::timer_fold(t, s1);
    if t.mergeable is Some {
        lemma_fold_push(t, s0, EntityAction::AddMergeableTime(-1i32));
    }
    assert(f1 == EntityTimer { mergeable: crate::game_solver::cache_entity::counted(t.mergeable, -1i32), ..t });
    let f2 = crate::game_solver::cache_entity::timer_fold(t, s2);
    if t.inertia is Some {
        lemma_fold_push(t, s1, EntityAction::AddInertiaTime(-1i32));
    }
    assert(f2 == EntityTimer { inertia: crate::game_solver::cache_entity::counted(t.inertia, -1i32), ..f1 });
    let f3 = crate::game_solver::cache_entity::timer_fold(t, s3);
    if t.collision is Some {
        lemma_fold_push(t, s2, EntityAction::AddCollisionTime(-1i32));
    }
    assert(f3 == EntityTimer { collision: crate::game_solver::cache_entity::counted(t.collision, -1i32), ..f2 });
    let f4 = crate::game_solver::cache_entity::timer_fold(t, s4);
    if t.collision_ratio is Some {
        lemma_fold_push(t, s3, EntityAction::AddCollisionRatioTime(-1i32));
    }
    assert(f4 == EntityTimer { collision_ratio: crate::game_solver::cache_entity::counted(t.collision_ratio, -1i32), ..f3 });
    let r = timer_requests(t, i);
    match t.lifetime_left {
        Some(l) => {
            if l == 0 {
                lemma_fold_push(t, s4, EntityAction::Killed(i));
            } else {
                lemma_fold_push(t, s4, EntityAction::AddLifetimeLeftTime(-1i32));
            }
        },
        None => {},
    }
}

impl NoInteractionsSolver {
    /// The entity ages by one update; past 200 its age falls back to 100.
    pub fn update_lifetime(game: &mut Game, entity_index: usize)
        requires
            old(game).wf(),
            entity_index < old(game).entities.core@.len(),
            old(game).entities.lifetime@[entity_index as int] < i32::MAX,
        ensures
            final(game).wf(),
            *final(game) == (Game {
                entities: crate::entity::entities::Entities {
                    lifetime: final(game).entities.lifetime,
                    ..old(game).entities
                },
                ..*old(game)
            }),
            final(game).entities.lifetime@ == old(game).entities.lifetime@.update(
                entity_index as int,
                lifetime_after(old(game).entities.lifetime@[entity_index as int]),
            ),
    {
        let l = game.entities.lifetime[entity_index] + 1;
        let l = if l > 200 { 100 } else { l };
        game.entities.lifetime.set(entity_index, l);
        proof {
            crate::game_solver::cache_entity::lemma_only_buffers_keeps_wf_lifetime(*game, *old(game));
        }
    }

    /// Sends to the entity's first buffer what its count-downs ask for.
    pub fn update_timer(game: &mut Game, entity_index: usize)
        requires
            old(game).wf(),
            entity_index < old(game).entities.core@.len(),
        ensures
            final(game).wf(),
            *final(game) == (Game {
                entities: crate::entity::entities::Entities { buffer: final(game).entities.buffer, ..old(game).entities },
                ..*old(game)
            }),
            final(game).entities.buffer@.len() == old(game).entities.buffer@.len(),
            final(game).entities.buffer@[entity_index as int]@ == old(game).entities.buffer@[entity_index as int]@
                + timer_requests(old(game).entities.timer@[entity_index as int], entity_index),
            forall|j: int| 0 <= j < old(game).entities.buffer@.len() && j != entity_index ==> #[trigger] final(game).entities.buffer@[j]
                == old(game).entities.buffer@[j],
    {
        let ghost g0 = *game;
        let ghost b0 = game.entities.buffer@[entity_index as int]@;
        let t = game.entities.timer[entity_index];
        let ghost t0 = Seq::<EntityAction>::empty();
        let ghost mut sent: Seq<EntityAction> = Seq::empty();
        if t.mergeable.is_some() {
            game.entities.send_buffer(entity_index, EntityAction::AddMergeableTime(-1));
            proof { sent = sent.push(EntityAction::AddMergeableTime(-1i32)); }
        }
        if t.inertia.is_some() {
            game.entities.send_buffer(entity_index, EntityAction::AddInertiaTime(-1));
            proof { sent = sent.push(EntityAction::AddInertiaTime(-1i32)); }
        }
        if t.collision.is_some() {
            game.entities.send_buffer(entity_index, EntityAction::AddCollisionTime(-1));
            proof { sent = sent.push(EntityAction::AddCollisionTime(-1i32)); }
        }
        if t.collision_ratio.is_some() {
            game.entities.send_buffer(entity_index, EntityAction::AddCollisionRatioTime(-1));
            proof { sent = sent.push(EntityAction::AddCollisionRatioTime(-1i32)); }
        }
        match t.lifetime_left {
            Some(lifetime) => {
                if lifetime == 0 {
                    game.entities.send_buffer(entity_index, EntityAction::Killed(entity_index));
                    proof { sent = sent.push(EntityAction::Killed(entity_index)); }
                } else {
                    game.entities.send_buffer(entity_index, EntityAction::AddLifetimeLeftTime(-1));
                    proof { sent = sent.push(EntityAction::AddLifetimeLeftTime(-1i32)); }
                }
            },
            None => {},
        }
        proof {
            assert(sent =~= timer_requests(t, entity_index));
            assert(game.entities.buffer@[entity_index as int]@ =~= b0 + sent);
            crate::game_solver::cache_entity::lemma_only_buffers_keeps_wf(*game, g0);
        }
    }

    /// Ages the entity and sends what its count-downs ask for.
    pub fn solve(game: &mut Game, entity_index: usize)
        requires
            old(game).wf(),
            entity_index < old(game).entities.core@.len(),
            old(game).entities.lifetime@[entity_index as int] < i32::MAX,
        ensures
            final(game).wf(),
            *final(game) == (Game {
                entities: crate::entity::entities::Entities {
                    lifetime: final(game).entities.lifetime,
                    buffer: final(game).entities.buffer,
                    ..old(game).entities
                },
                ..*old(game)
            }),
            final(game).entities.lifetime@ == old(game).entities.lifetime@.update(
                entity_index as int,
                lifetime_after(old(game).entities.lifetime@[entity_index as int]),
            ),
            final(game).entities.buffer@.len() == old(game).entities.buffer@.len(),
            final(game).entities.buffer@[entity_index as int]@ == old(game).entities.buffer@[entity_index as int]@
                + timer_requests(old(game).entities.timer@[entity_index as int], entity_index),
            forall|j: int| 0 <= j < old(game).entities.buffer@.len() && j != entity_index ==> #[trigger] final(game).entities.buffer@[j]
                == old(game).entities.buffer@[j],
    {
        Self::update_lifetime(game, entity_index);
        Self::update_timer(game, entity_index);
    }
}

} // verus!
