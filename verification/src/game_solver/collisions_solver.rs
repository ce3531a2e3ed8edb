use vstd::prelude::*;
use crate::game::Game;

verus! {

/// Two entities can collide: they belong to the same player, at least one
/// of them waits to become mergeable or collides even when mergeable, and
/// neither waits out a collision time. Whether they touch is a question of
/// radii, real numbers measured beside it.
pub open spec fn may_collide(g: Game, e: int, o: int) -> bool {
    let ce = g.entities.core@[e];
    let co = g.entities.core@[o];
    let te = g.entities.timer@[e];
    let to = g.entities.timer@[o];
    &&& co.player == ce.player
    &&& !(te.mergeable is None && to.mergeable is None && !ce.characteristics.collide_when_mergeable
        && !co.characteristics.collide_when_mergeable)
    &&& te.collision is None
    &&& to.collision is None
}

/// Whether entities `entity_index` and `other_index` can collide.
pub fn check_entity(game: &Game, entity_index: usize, other_index: usize) -> (b: bool)
    requires
        game.entities.sizes_ok(),
        entity_index < game.entities.core@.len(),
        other_index < game.entities.core@.len(),
    ensures
        b == may_collide(*game, entity_index as int, other_index as int),
{
    let entity = &game.entities.core[entity_index];
    let other = &game.entities.core[other_index];
    let entity_timer = &game.entities.timer[entity_index];
    let other_timer = &game.entities.timer[other_index];
    if other.player != entity.player {
        return false;
    }
    if entity_timer.mergeable.is_none() && other_timer.mergeable.is_none() && !entity.characteristics.collide_when_mergeable
        && !other.characteristics.collide_when_mergeable {
        return false;
    }
    if entity_timer.collision.is_some() || other_timer.collision.is_some() {
        return false;
    }
    true
}

/// Whether two entities can collide does not depend on which one asks.
pub proof fn lemma_collision_rule_symmetric(g: Game, e: int, o: int)
    ensures
        may_collide(g, e, o) == may_collide(g, o, e),
{
}

/// Entities of two different players never collide.
pub proof fn lemma_other_players_never_collide(g: Game, e: int, o: int)
    requires
        g.entities.core@[e].player != g.entities.core@[o].player,
    ensures
        !may_collide(g, e, o),
{
}

/// While either entity waits out a collision time, the two do not collide.
pub proof fn lemma_collision_time_keeps_apart(g: Game, e: int, o: int)
    requires
        g.entities.timer@[e].collision is Some || g.entities.timer@[o].collision is Some,
    ensures
        !may_collide(g, e, o),
{
}

/// Two entities of the same player with no collision time running collide
/// when one of them waits to become mergeable, or when one of them collides
/// even when mergeable.
pub proof fn lemma_same_player_collides(g: Game, e: int, o: int)
    requires
        g.entities.core@[e].player == g.entities.core@[o].player,
        g.entities.timer@[e].collision is None,
        g.entities.timer@[o].collision is None,
        g.entities.timer@[e].mergeable is Some || g.entities.timer@[o].mergeable is Some
            || g.entities.core@[e].characteristics.collide_when_mergeable
            || g.entities.core@[o].characteristics.collide_when_mergeable,
    ensures
        may_collide(g, e, o),
{
}

/// Two entities of the same player that can both merge, and neither of
/// which collides when mergeable, pass through each other.
pub proof fn lemma_mergeable_cells_pass_through(g: Game, e: int, o: int)
    requires
        g.entities.timer@[e].mergeable is None,
        g.entities.timer@[o].mergeable is None,
        !g.entities.core@[e].characteristics.collide_when_mergeable,
        !g.entities.core@[o].characteristics.collide_when_mergeable,
    ensures
        !may_collide(g, e, o),
{
}

} // verus!
