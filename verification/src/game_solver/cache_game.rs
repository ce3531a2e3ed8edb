use vstd::prelude::*;
use crate::entity::EntityInfo;
use crate::game::Game;
use crate::entity::entities::clamp_spec;
use crate::geometry::Size2D;

verus! {

/// Applies the additions and the deaths that wait in the game.
pub struct CacheGameSolver;

/// Every waiting addition names an existing player and sound mass bounds.
pub open spec fn adds_ok(g: Game) -> bool {
    forall|k: int| 0 <= k < g.buffer_add_entity@.len() ==> {
        &&& (#[trigger] g.buffer_add_entity@[k]).player < g.players@.len()
        &&& g.buffer_add_entity@[k].characteristics.mass_min <= g.buffer_add_entity@[k].characteristics.mass_max
    }
}

/// Entity `n` of `g` is made from `info` on a map whose largest
/// coordinates are `max`: its player, characteristics, colour, texture and
/// timers are those of `info`, its position is clamped onto the map and its
/// mass into its bounds.
pub open spec fn made_from(g: Game, n: int, info: EntityInfo, max: Size2D) -> bool {
    let e = g.entities;
    &&& e.core@[n].player == info.player
    &&& e.core@[n].characteristics == info.characteristics
    &&& e.core@[n].color == info.color
    &&& e.core@[n].index.texture == info.texture
    &&& e.timer@[n] == info.timer
    &&& e.mass@[n] == clamp_spec(info.mass as int, info.characteristics.mass_min as int, info.characteristics.mass_max as int)
    &&& e.position@[n].x == clamp_spec(info.position.x as int, 0, max.width as int)
    &&& e.position@[n].y == clamp_spec(info.position.y as int, 0, max.height as int)
}

/// The handles lead to distinct live entities.
pub open spec fn handles_ok(e: crate::entity::entities::Entities, hs: Seq<usize>) -> bool {
    &&& forall|k: int| 0 <= k < hs.len() ==> {
        &&& (#[trigger] hs[k]) < e.main_ptrs@.len()
        &&& e.main_ptrs@[hs[k] as int] is Some
    }
    &&& forall|a: int, b: int| 0 <= a < b < hs.len() ==> #[trigger] hs[a] != #[trigger] hs[b]
}

/// The handles waiting to be killed lead to distinct live entities.
pub open spec fn kills_ok(g: Game) -> bool {
    handles_ok(g.entities, g.buffer_kill_entity@)
}

/// The live handle `h` of `g0` leads in `g` to an entity at the same
/// position, with the same mass and player, as in `g0`.
pub open spec fn follows(g: Game, g0: Game, h: int) -> bool {
    let i = g0.entities.main_ptrs@[h].unwrap() as int;
    let j = g.entities.main_ptrs@[h].unwrap() as int;
    &&& g.entities.main_ptrs@[h] is Some
    &&& g.entities.core@[j].player == g0.entities.core@[i].player
    &&& g.entities.position@[j] == g0.entities.position@[i]
    &&& g.entities.mass@[j] == g0.entities.mass@[i]
}

impl CacheGameSolver {
    /// Adds the entities that wait to be added, in order.
    pub fn add_entities(game: &mut Game)
        requires
            old(game).wf(),
            adds_ok(*old(game)),
            old(game).entities.core@.len() + old(game).buffer_add_entity@.len() < usize::MAX,
            old(game).entities.main_ptrs@.len() + old(game).buffer_add_entity@.len() < usize::MAX,
            old(game).id_generator.next + old(game).buffer_add_entity@.len() < usize::MAX,
        ensures
            final(game).wf(),
            final(game).buffer_add_entity@.len() == 0,
            final(game).entities.core@.len() == old(game).entities.core@.len() + old(game).buffer_add_entity@.len(),
            final(game).entities.main_ptrs@.len() == old(game).entities.main_ptrs@.len() + old(game).buffer_add_entity@.len(),
            forall|h: int| 0 <= h < old(game).entities.main_ptrs@.len() ==> #[trigger] final(game).entities.main_ptrs@[h]
                == old(game).entities.main_ptrs@[h],
            forall|h: int| old(game).entities.main_ptrs@.len() <= h < final(game).entities.main_ptrs@.len() ==> #[trigger] final(game).entities.main_ptrs@[h]
                == Some((old(game).entities.core@.len() + h - old(game).entities.main_ptrs@.len()) as usize),
            forall|k: int| 0 <= k < old(game).buffer_add_entity@.len() ==> #[trigger] made_from(
                *final(game),
                old(game).entities.core@.len() + k,
                old(game).buffer_add_entity@[k],
                old(game).map.max_spec(),
            ),
            forall|i: int| 0 <= i < old(game).entities.core@.len() ==> #[trigger] final(game).entities.core@[i] == old(game).entities.core@[i],
            forall|i: int| 0 <= i < old(game).entities.core@.len() ==> #[trigger] final(game).entities.position@[i]
                == old(game).entities.position@[i],
            forall|i: int| 0 <= i < old(game).entities.core@.len() ==> #[trigger] final(game).entities.mass@[i] == old(game).entities.mass@[i],
            final(game).buffer_kill_entity == old(game).buffer_kill_entity,
            final(game).map.size == old(game).map.size,
            final(game).players@.len() == old(game).players@.len(),
            final(game).settings == old(game).settings,
    {
        let mut infos: Vec<EntityInfo> = Vec::new();
        std::mem::swap(&mut infos, &mut game.buffer_add_entity);
        let ghost g0 = *game;
        let ghost adds = infos@;
        let ghost n0 = g0.entities.core@.len();
        let ghost h0 = g0.entities.main_ptrs@.len();
        for info in iter: infos
            invariant
                game.wf(),
                g0.wf(),
                n0 == g0.entities.core@.len(),
                h0 == g0.entities.main_ptrs@.len(),
                game.buffer_kill_entity == g0.buffer_kill_entity,
                game.map.size == g0.map.size,
                game.map.max_spec() == g0.map.max_spec(),
                game.settings == g0.settings,
                forall|h: int| 0 <= h < h0 ==> #[trigger] game.entities.main_ptrs@[h] == g0.entities.main_ptrs@[h],
                forall|h: int| h0 <= h < h0 + iter.index() ==> #[trigger] game.entities.main_ptrs@[h] == Some((n0 + h - h0) as usize),
                forall|k: int| 0 <= k < iter.index() ==> #[trigger] made_from(*game, n0 + k, adds[k], g0.map.max_spec()),
                forall|i: int| 0 <= i < n0 ==> #[trigger] game.entities.core@[i] == g0.entities.core@[i],
                forall|i: int| 0 <= i < n0 ==> #[trigger] game.entities.position@[i] == g0.entities.position@[i],
                forall|i: int| 0 <= i < n0 ==> #[trigger] game.entities.mass@[i] == g0.entities.mass@[i],
                adds == iter.seq(),
                game.buffer_add_entity@.len() == 0,
                game.players@.len() == g0.players@.len(),
                game.entities.core@.len() == g0.entities.core@.len() + iter.index(),
                game.entities.main_ptrs@.len() == g0.entities.main_ptrs@.len() + iter.index(),
                game.id_generator.next <= g0.id_generator.next + iter.index(),
                g0.entities.core@.len() + adds.len() < usize::MAX,
                g0.entities.main_ptrs@.len() + adds.len() < usize::MAX,
                g0.id_generator.next + adds.len() < usize::MAX,
                forall|k: int| 0 <= k < adds.len() ==> {
                    &&& (#[trigger] adds[k]).player < g0.players@.len()
                    &&& adds[k].characteristics.mass_min <= adds[k].characteristics.mass_max
                },
        {
            let ghost before = *game;
            let ghost k0 = iter.index();
            game.new_entity(info);
            proof {
                let nb = before.entities.core@.len() as int;
                assert forall|k: int| 0 <= k < k0 + 1 implies #[trigger] made_from(*game, n0 + k, adds[k], g0.map.max_spec()) by {
                    if k < k0 {
                        assert(made_from(before, n0 + k, adds[k], g0.map.max_spec()));
                        assert(game.entities.core@[n0 + k] == before.entities.core@[n0 + k]);
                        assert(game.entities.timer@[n0 + k] == before.entities.timer@[n0 + k]);
                        assert(game.entities.position@[n0 + k] == before.entities.position@[n0 + k]);
                        assert(game.entities.mass@[n0 + k] == before.entities.mass@[n0 + k]);
                    }
                }
                assert forall|h: int| h0 <= h < h0 + k0 + 1 implies #[trigger] game.entities.main_ptrs@[h] == Some((n0 + h - h0) as usize) by {
                    if h < h0 + k0 {
                        assert(game.entities.main_ptrs@[h] == before.entities.main_ptrs@[h]);
                    }
                }
                assert forall|h: int| 0 <= h < h0 implies #[trigger] game.entities.main_ptrs@[h] == g0.entities.main_ptrs@[h] by {
                    assert(game.entities.main_ptrs@[h] == before.entities.main_ptrs@[h]);
                }
                assert forall|i: int| 0 <= i < n0 implies #[trigger] game.entities.core@[i] == g0.entities.core@[i] by {
                    assert(game.entities.core@[i] == before.entities.core@[i]);
                }
                assert forall|i: int| 0 <= i < n0 implies #[trigger] game.entities.position@[i] == g0.entities.position@[i] by {
                    assert(game.entities.position@[i] == before.entities.position@[i]);
                }
                assert forall|i: int| 0 <= i < n0 implies #[trigger] game.entities.mass@[i] == g0.entities.mass@[i] by {
                    assert(game.entities.mass@[i] == before.entities.mass@[i]);
                }
            }
        }
    }
    /// Deletes the entities that the handles lead to, in order; each handle
    /// dies, and every other live handle keeps leading to its entity.
    pub fn delete_handles(game: &mut Game, handles: Vec<usize>)
        requires
            old(game).wf(),
            handles_ok(old(game).entities, handles@),
        ensures
            final(game).wf(),
            final(game).buffer_kill_entity == old(game).buffer_kill_entity,
            final(game).entities.core@.len() == old(game).entities.core@.len() - handles@.len(),
            final(game).entities.main_ptrs@.len() == old(game).entities.main_ptrs@.len(),
            forall|k: int| 0 <= k < handles@.len() ==> final(game).entities.main_ptrs@[
                #[trigger] handles@[k] as int] is None,
            forall|h: int| 0 <= h < old(game).entities.main_ptrs@.len() && old(game).entities.main_ptrs@[h] is Some
                && !handles@.contains(h as usize) ==> #[trigger] follows(*final(game), *old(game), h),
            final(game).buffer_add_entity == old(game).buffer_add_entity,
            final(game).map.size == old(game).map.size,
            final(game).players@.len() == old(game).players@.len(),
            final(game).settings == old(game).settings,
    {
        let ghost g0 = *game;
        let ghost go = *old(game);
        let ghost ks = handles@;
        for handle in iter: handles
            invariant
                game.wf(),
                g0.wf(),
                ks == iter.seq(),
                g0 == go,
                handles_ok(go.entities, ks),
                game.buffer_kill_entity == g0.buffer_kill_entity,
                game.buffer_add_entity == g0.buffer_add_entity,
                game.map.size == g0.map.size,
                game.players@.len() == g0.players@.len(),
                game.settings == g0.settings,
                game.entities.core@.len() == g0.entities.core@.len() - iter.index(),
                game.entities.main_ptrs@.len() == g0.entities.main_ptrs@.len(),
                forall|k: int| 0 <= k < iter.index() ==> game.entities.main_ptrs@[#[trigger] ks[k] as int] is None,
                forall|k: int| iter.index() <= k < ks.len() ==> #[trigger] follows(*game, g0, ks[k] as int),
                forall|h: int| 0 <= h < g0.entities.main_ptrs@.len() && g0.entities.main_ptrs@[h] is Some
                    && !ks.take(iter.index() as int).contains(h as usize) ==> #[trigger] follows(*game, g0, h),
        {
            let ghost before = *game;
            let ghost k0 = iter.index();
            proof {
                assert(follows(*game, g0, handle as int));
            }
            match game.entities.main_ptr_upgrade(handle) {
                Some(index) => {
                    game.delete_entity(index);
                    proof {
                        let hd = handle as int;
                        let idx = index as int;
                        assert(before.entities.main_ptrs@[hd] == Some(index));
                        assert(before.entities.core@[idx].index.main_ptr == hd);
                        assert(ks.take(k0 + 1) =~= ks.take(k0).push(handle));
                        assert forall|h: int| 0 <= h < g0.entities.main_ptrs@.len() && g0.entities.main_ptrs@[h] is Some
                            && !ks.take(k0 + 1).contains(h as usize) implies #[trigger] follows(*game, g0, h) by {
                            if ks.take(k0).contains(h as usize) {
                                let w = choose|w: int| 0 <= w < ks.take(k0).len() && ks.take(k0)[w] == h as usize;
                                assert(ks.take(k0 + 1)[w] == h as usize);
                            }
                            assert(follows(before, g0, h));
                            assert(h != hd) by {
                                assert(ks.take(k0 + 1)[k0 as int] == handle);
                            }
                        }
                        assert forall|k: int| k0 + 1 <= k < ks.len() implies #[trigger] follows(*game, g0, ks[k] as int) by {
                            assert(ks[k] != ks[k0 as int]);
                            assert(follows(before, g0, ks[k] as int));
                        }
                        assert forall|k: int| 0 <= k < k0 + 1 implies game.entities.main_ptrs@[#[trigger] ks[k] as int] is None by {
                            if k < k0 {
                                assert(before.entities.main_ptrs@[ks[k] as int] is None);
                            }
                        }
                    }
                },
                None => {},
            }
        }
        proof {
            assert(ks.take(ks.len() as int) =~= ks);
            assert forall|h: int| 0 <= h < go.entities.main_ptrs@.len() && go.entities.main_ptrs@[h] is Some
                && !ks.contains(h as usize) implies #[trigger] follows(*game, go, h) by {
                assert(follows(*game, g0, h));
            }
        }
    }

    /// Kills the entities whose handles wait to be killed, in order; each
    /// handle dies, and every other live handle keeps leading to its
    /// entity.
    pub fn kill_entities(game: &mut Game)
        requires
            old(game).wf(),
            kills_ok(*old(game)),
        ensures
            final(game).wf(),
            final(game).buffer_kill_entity@.len() == 0,
            final(game).entities.core@.len() == old(game).entities.core@.len() - old(game).buffer_kill_entity@.len(),
            final(game).entities.main_ptrs@.len() == old(game).entities.main_ptrs@.len(),
            forall|k: int| 0 <= k < old(game).buffer_kill_entity@.len() ==> final(game).entities.main_ptrs@[
                #[trigger] old(game).buffer_kill_entity@[k] as int] is None,
            forall|h: int| 0 <= h < old(game).entities.main_ptrs@.len() && old(game).entities.main_ptrs@[h] is Some
                && !old(game).buffer_kill_entity@.contains(h as usize) ==> #[trigger] follows(*final(game), *old(game), h),
            final(game).buffer_add_entity == old(game).buffer_add_entity,
            final(game).map.size == old(game).map.size,
            final(game).players@.len() == old(game).players@.len(),
            final(game).settings == old(game).settings,
    {
        let mut kills: Vec<usize> = Vec::new();
        std::mem::swap(&mut kills, &mut game.buffer_kill_entity);
        let ghost g1 = *game;
        Self::delete_handles(game, kills);
        proof {
            assert forall|h: int| 0 <= h < old(game).entities.main_ptrs@.len() && old(game).entities.main_ptrs@[h] is Some
                && !old(game).buffer_kill_entity@.contains(h as usize) implies #[trigger] follows(*game, *old(game), h) by {
                assert(follows(*game, g1, h));
            }
        }
    }

    /// Adds the entities that wait to be added, then kills those whose
    /// handles wait to be killed.
    pub fn solve(game: &mut Game)
        requires
            old(game).wf(),
            adds_ok(*old(game)),
            kills_ok(*old(game)),
            old(game).entities.core@.len() + old(game).buffer_add_entity@.len() < usize::MAX,
            old(game).entities.main_ptrs@.len() + old(game).buffer_add_entity@.len() < usize::MAX,
            old(game).id_generator.next + old(game).buffer_add_entity@.len() < usize::MAX,
        ensures
            final(game).wf(),
            final(game).buffer_add_entity@.len() == 0,
            final(game).buffer_kill_entity@.len() == 0,
            final(game).entities.core@.len() == old(game).entities.core@.len() + old(game).buffer_add_entity@.len()
                - old(game).buffer_kill_entity@.len(),
            forall|k: int| 0 <= k < old(game).buffer_kill_entity@.len() ==> final(game).entities.main_ptrs@[
                #[trigger] old(game).buffer_kill_entity@[k] as int] is None,
            forall|h: int| 0 <= h < old(game).entities.main_ptrs@.len() && old(game).entities.main_ptrs@[h] is Some
                && !old(game).buffer_kill_entity@.contains(h as usize) ==> #[trigger] follows(*final(game), *old(game), h),
    {
        let ghost g0 = *game;
        Self::add_entities(game);
        let ghost g1 = *game;
        proof {
            assert forall|k: int| 0 <= k < g1.buffer_kill_entity@.len() implies {
                &&& (#[trigger] g1.buffer_kill_entity@[k]) < g1.entities.main_ptrs@.len()
                &&& g1.entities.main_ptrs@[g1.buffer_kill_entity@[k] as int] is Some
            } by {
                assert(g1.entities.main_ptrs@[g0.buffer_kill_entity@[k] as int] == g0.entities.main_ptrs@[g0.buffer_kill_entity@[k] as int]);
            }
        }
        Self::kill_entities(game);
        proof {
            assert forall|h: int| 0 <= h < g0.entities.main_ptrs@.len() && g0.entities.main_ptrs@[h] is Some
                && !g0.buffer_kill_entity@.contains(h as usize) implies #[trigger] follows(*game, g0, h) by {
                assert(g1.entities.main_ptrs@[h] == g0.entities.main_ptrs@[h]);
                assert(follows(*game, g1, h));
                let i = g0.entities.main_ptrs@[h].unwrap() as int;
                assert(g1.entities.core@[i] == g0.entities.core@[i]);
                assert(g1.entities.position@[i] == g0.entities.position@[i]);
                assert(g1.entities.mass@[i] == g0.entities.mass@[i]);
            }
        }
    }
}

} // verus!
