use vstd::prelude::*;
use crate::entity::{
    EntityAction, EntityCharacteristics, EntityColor, EntityInfo, ThrowEntityInfo, ThrownEntityCharacteristics,
    ThrownEntityColor, ThrownEntityTexture, same_characteristics,
};
use crate::geometry::{Point2D, Vector2D};
use crate::game::Game;
use crate::random::random_index;
use super::cache_entity::lemma_only_buffers_keeps_wf;

verus! {

/// Entities that throw smaller entities around them. How many entities are
/// thrown, in which directions and at which speeds are computed on real
/// numbers beside it; here each thrown entity is made and queued.
pub struct ThrowingEntitySolver;

/// What entity `e` of `g` throws with: its characteristics say it throws.
pub open spec fn throw_of(g: Game, e: int) -> ThrowEntityInfo {
    g.entities.core@[e].characteristics.throw_entity.unwrap()
}

/// The throw of entity `e` can be made: its characteristics say it
/// throws, a stored characteristics index exists, and a list to draw a
/// colour or texture from is not empty.
pub open spec fn throw_ok(g: Game, e: int) -> bool {
    &&& g.entities.core@[e].characteristics.throw_entity is Some
    &&& throw_of(g, e).characteristics_entity_thrown matches ThrownEntityCharacteristics::CustomIndex(i) ==> i
        < g.entities_characteristics@.len()
    &&& throw_of(g, e).color matches ThrownEntityColor::Random(v) ==> v@.len() > 0
    &&& throw_of(g, e).texture matches ThrownEntityTexture::Random(v) ==> v@.len() > 0
}

/// A thrown entity of `e`, placed at `offset` from it: it belongs to
/// player 0, has the thrown mass and timers, the thrower's, the custom or
/// the stored characteristics, and the thrower's, the custom or one of the
/// listed colours and textures.
pub open spec fn thrown_by(g: Game, e: int, offset: Vector2D, info: EntityInfo) -> bool {
    let t = throw_of(g, e);
    let c = g.entities.core@[e];
    let p = g.entities.position@[e];
    &&& info.player == 0
    &&& info.position.x == p.x + offset.x
    &&& info.position.y == p.y + offset.y
    &&& info.mass == t.mass_entity_thrown
    &&& info.timer == t.timer_entity_thrown
    &&& same_characteristics(info.characteristics, match t.characteristics_entity_thrown {
        ThrownEntityCharacteristics::Same => c.characteristics,
        ThrownEntityCharacteristics::Custom(b) => *b,
        ThrownEntityCharacteristics::CustomIndex(i) => g.entities_characteristics@[i as int],
    })
    &&& match t.color {
        ThrownEntityColor::Same => info.color == c.color,
        ThrownEntityColor::Custom(k) => info.color == k,
        ThrownEntityColor::Random(v) => v@.contains(info.color),
    }
    &&& match t.texture {
        ThrownEntityTexture::Same => info.texture == c.index.texture,
        ThrownEntityTexture::CustomIndex(i) => info.texture == i,
        ThrownEntityTexture::Random(v) => v@.contains(info.texture),
    }
}

/// `n` times the change that throwing makes to the thrower's mass.
pub open spec fn self_additions(m: i64, n: nat) -> Seq<EntityAction> {
    Seq::new(n, |k: int| EntityAction::AddMass(m))
}

impl ThrowingEntitySolver {
    /// The entity thrown by entity `entity` at `offset` from it.
    pub fn thrown_entity(game: &Game, entity: usize, offset: Vector2D) -> (info: EntityInfo)
        requires
            game.wf(),
            entity < game.entities.core@.len(),
            throw_ok(*game, entity as int),
            i32::MIN <= game.entities.position@[entity as int].x + offset.x <= i32::MAX,
            i32::MIN <= game.entities.position@[entity as int].y + offset.y <= i32::MAX,
        ensures
            thrown_by(*game, entity as int, offset, info),
    {
        let c = &game.entities.core[entity];
        let t = match &c.characteristics.throw_entity {
            Some(t) => t,
            None => {
                proof {
                    assert(false);
                }
                return EntityInfo::default();
            },
        };
        let p = game.entities.position[entity];
        let characteristics: EntityCharacteristics = match &t.characteristics_entity_thrown {
            ThrownEntityCharacteristics::Same => c.characteristics.duplicate(),
            ThrownEntityCharacteristics::Custom(b) => b.duplicate(),
            ThrownEntityCharacteristics::CustomIndex(i) => game.entities_characteristics[*i].duplicate(),
        };
        let color: EntityColor = match &t.color {
            ThrownEntityColor::Same => c.color,
            ThrownEntityColor::Custom(k) => *k,
            ThrownEntityColor::Random(v) => {
                let i = random_index(v.len());
                v[i]
            },
        };
        let texture: usize = match &t.texture {
            ThrownEntityTexture::Same => c.index.texture,
            ThrownEntityTexture::CustomIndex(i) => *i,
            ThrownEntityTexture::Random(v) => {
                let i = random_index(v.len());
                v[i]
            },
        };
        EntityInfo {
            player: 0,
            position: Point2D::new(p.x + offset.x, p.y + offset.y),
            mass: t.mass_entity_thrown,
            color,
            texture,
            timer: t.timer_entity_thrown,
            characteristics,
        }
    }

    /// An entity heavier than its throw's minimum throws one entity for
    /// each of `offsets`, placed there from it: each waits to be added, and
    /// each takes the throw's mass change from the thrower. A lighter
    /// entity throws nothing.
    pub fn solve(game: &mut Game, entity: usize, offsets: &Vec<Vector2D>)
        requires
            old(game).wf(),
            entity < old(game).entities.core@.len(),
            throw_ok(*old(game), entity as int),
            forall|k: int| 0 <= k < offsets@.len() ==> {
                &&& i32::MIN <= old(game).entities.position@[entity as int].x + (#[trigger] offsets@[k]).x <= i32::MAX
                &&& i32::MIN <= old(game).entities.position@[entity as int].y + offsets@[k].y <= i32::MAX
            },
        ensures
            final(game).wf(),
            old(game).entities.mass@[entity as int] <= throw_of(*old(game), entity as int).mass_minimum_to_throw
                ==> *final(game) == *old(game),
            old(game).entities.mass@[entity as int] > throw_of(*old(game), entity as int).mass_minimum_to_throw ==> {
                &&& *final(game) == (Game {
                    buffer_add_entity: final(game).buffer_add_entity,
                    entities: crate::entity::entities::Entities { buffer: final(game).entities.buffer, ..old(game).entities },
                    ..*old(game)
                })
                &&& final(game).buffer_add_entity@.len() == old(game).buffer_add_entity@.len() + offsets@.len()
                &&& final(game).buffer_add_entity@.subrange(0, old(game).buffer_add_entity@.len() as int)
                    == old(game).buffer_add_entity@
                &&& forall|k: int| 0 <= k < offsets@.len() ==> #[trigger] thrown_by(
                    *old(game),
                    entity as int,
                    offsets@[k],
                    final(game).buffer_add_entity@[old(game).buffer_add_entity@.len() + k],
                )
                &&& final(game).entities.buffer@ == old(game).entities.buffer@.update(
                    entity as int,
                    final(game).entities.buffer@[entity as int],
                )
                &&& final(game).entities.buffer@[entity as int]@ == old(game).entities.buffer@[entity as int]@
                    + self_additions(throw_of(*old(game), entity as int).mass_self_added, offsets@.len())
            },
    {
        let ghost g0 = *game;
        let minimum = match &game.entities.core[entity].characteristics.throw_entity {
            Some(t) => t.mass_minimum_to_throw,
            None => {
                return;
            },
        };
        let added = match &game.entities.core[entity].characteristics.throw_entity {
            Some(t) => t.mass_self_added,
            None => {
                return;
            },
        };
        if game.entities.mass[entity] <= minimum {
            return;
        }
        let ghost n0 = g0.buffer_add_entity@.len();
        let ghost b0 = g0.entities.buffer@[entity as int]@;
        let mut k: usize = 0;
        while k < offsets.len()
            invariant
                g0.wf(),
                game.wf(),
                entity < g0.entities.core@.len(),
                throw_ok(g0, entity as int),
                added == throw_of(g0, entity as int).mass_self_added,
                k <= offsets@.len(),
                forall|j: int| 0 <= j < offsets@.len() ==> {
                    &&& i32::MIN <= g0.entities.position@[entity as int].x + (#[trigger] offsets@[j]).x <= i32::MAX
                    &&& i32::MIN <= g0.entities.position@[entity as int].y + offsets@[j].y <= i32::MAX
                },
                *game == (Game {
                    buffer_add_entity: game.buffer_add_entity,
                    entities: crate::entity::entities::Entities { buffer: game.entities.buffer, ..g0.entities },
                    ..g0
                }),
                game.entities.buffer@.len() == g0.entities.buffer@.len(),
                game.buffer_add_entity@.len() == n0 + k,
                game.buffer_add_entity@.subrange(0, n0 as int) == g0.buffer_add_entity@,
                forall|j: int| 0 <= j < k ==> #[trigger] thrown_by(g0, entity as int, offsets@[j], game.buffer_add_entity@[n0 + j]),
                game.entities.buffer@ == g0.entities.buffer@.update(entity as int, game.entities.buffer@[entity as int]),
                game.entities.buffer@[entity as int]@ == b0 + self_additions(added, k as nat),
            decreases offsets.len() - k,
        {
            let ghost before = *game;
            let info = Self::thrown_entity(game, entity, offsets[k]);
            proof {
                assert(thrown_by(g0, entity as int, offsets@[k as int], info));
            }
            game.buffer_add_entity.push(info);
            game.entities.send_buffer(entity, EntityAction::AddMass(added));
            proof {
                lemma_only_buffers_keeps_wf(
                    Game { buffer_add_entity: before.buffer_add_entity, ..*game },
                    before,
                );
                assert(game.entities.buffer@ =~= g0.entities.buffer@.update(entity as int, game.entities.buffer@[entity as int]));
                assert(game.entities.buffer@[entity as int]@ =~= b0 + self_additions(added, (k + 1) as nat));
                assert(game.buffer_add_entity@.subrange(0, n0 as int) =~= g0.buffer_add_entity@);
                assert forall|j: int| 0 <= j < k + 1 implies #[trigger] thrown_by(
                    g0,
                    entity as int,
                    offsets@[j],
                    game.buffer_add_entity@[n0 + j],
                ) by {
                    if j < k {
                        assert(game.buffer_add_entity@[n0 + j] == before.buffer_add_entity@[n0 + j]);
                    }
                }
            }
            k = k + 1;
        }
    }
}

} // verus!
