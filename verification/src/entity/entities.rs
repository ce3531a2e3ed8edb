use vstd::prelude::*;
use crate::geometry::{Point2D, Rect, Size2D};
use crate::map::GameMap;
use super::{EntityAction, EntityCharacteristics, EntityColor, EntityInfo, EntitySpecial, EntityTimer};
use super::flags::{self, EntityFlags};
use super::index::MatrixIndex;

verus! {

/// The indexes under which an entity can be found.
#[derive(Clone, Copy, PartialEq, Eq, Structural, Debug)]
pub struct EntityIndex {
    /// Its position in the entity arrays.
    pub main: usize,
    /// Its handle: the slot of the pointer table that follows it when it moves.
    pub main_ptr: usize,
    /// Its position in its player's list.
    pub player: usize,
    pub texture: usize,
    pub unique_id: usize,
    pub drawing_buffer: usize,
}

/// The parts of an entity that are not stored column-wise.
#[derive(Debug)]
pub struct EntityCore {
    pub alive: bool,
    pub player: usize,
    pub color: EntityColor,
    pub characteristics: EntityCharacteristics,
    pub index: EntityIndex,
    /// The entity that killed it during this update, if any.
    pub killed: Option<usize>,
}

impl EntityCore {
    /// A live entity of the player of `info`, with its colour, texture and
    /// characteristics, and not yet placed anywhere.
    pub fn new(info: EntityInfo, _map: &GameMap) -> (core: EntityCore)
        requires
            info.characteristics.mass_min <= info.characteristics.mass_max,
        ensures
            core.alive,
            core.player == info.player,
            core.color == info.color,
            core.characteristics == info.characteristics,
            core.index == (EntityIndex {
                main: 0,
                main_ptr: 0,
                player: 0,
                texture: info.texture,
                unique_id: 0,
                drawing_buffer: usize::MAX,
            }),
            core.killed is None,
    {
        let EntityInfo { player, position: _, mass: _, color, texture, timer: _, characteristics } = info;
        EntityCore {
            alive: true,
            player,
            color,
            characteristics,
            index: EntityIndex {
                main: 0,
                main_ptr: 0,
                player: 0,
                texture,
                unique_id: 0,
                drawing_buffer: usize::MAX,
            },
            killed: None,
        }
    }
}

/// The flags that a new entity starts with, from its characteristics.
pub open spec fn initial_flags(f: EntityFlags, c: EntityCharacteristics) -> bool {
    &&& f.has(flags::GRAVITY) == (c.gravity is Some)
    &&& f.has(flags::THROW) == (c.throw_entity is Some)
    &&& f.has(flags::EATER) == c.killer
    &&& f.has(flags::COLLIDE) == c.collide
    &&& f.has(flags::MOVABLE) == c.affected_by_gravity
    &&& f.has(flags::BOUNCE) == c.bounce
    &&& !f.has(flags::MOVED)
    &&& !f.has(flags::MASS_CHANGED)
    &&& !f.has(flags::MATRIX_SIMPLE_TO_CHANGE)
}

/// The flags that follow from the characteristics: gravity, throwing,
/// eating, colliding, being moved by gravity and bouncing; nothing has
/// moved or changed yet.
pub fn flags_of(c: &EntityCharacteristics) -> (f: EntityFlags)
    ensures
        initial_flags(f, *c),
{
    let mut entity_flags = EntityFlags::empty();
    if c.gravity.is_some() {
        entity_flags.insert(flags::GRAVITY);
    }
    if c.throw_entity.is_some() {
        entity_flags.insert(flags::THROW);
    }
    if c.killer {
        entity_flags.insert(flags::EATER);
    }
    if c.collide {
        entity_flags.insert(flags::COLLIDE);
    }
    if c.affected_by_gravity {
        entity_flags.insert(flags::MOVABLE);
    }
    if c.bounce {
        entity_flags.insert(flags::BOUNCE);
    }
    entity_flags
}

/// `v` clamped into `[lo, hi]`, the upper bound applied first.
pub open spec fn clamp_spec(v: int, lo: int, hi: int) -> int {
    let capped = if v <= hi { v } else { hi };
    if capped >= lo { capped } else { lo }
}

/// The entities, stored column-wise: entry `i` of each array belongs to the
/// entity at index `i`. Speeds and the other real-valued columns are kept
/// beside these arrays, in the same order.
pub struct Entities {
    pub core: Vec<EntityCore>,
    pub position: Vec<Point2D>,
    pub mass: Vec<i64>,
    pub direction: Vec<Option<Point2D>>,
    pub timer: Vec<EntityTimer>,
    pub flags: Vec<EntityFlags>,
    pub lifetime: Vec<i32>,
    pub index_matrix_simple: Vec<MatrixIndex>,
    pub special: Vec<Vec<EntitySpecial>>,
    /// The changes waiting for each entity, applied first.
    pub buffer: Vec<Vec<EntityAction>>,
    /// The changes waiting for each entity, applied once the first buffers
    /// are empty.
    pub buffer2: Vec<Vec<EntityAction>>,
    /// The pointer table: the slot of a live entity holds its index; the
    /// slot of a dead entity holds `None`.
    pub main_ptrs: Vec<Option<usize>>,
}

impl Entities {
    pub open spec fn len_spec(&self) -> nat {
        self.core@.len()
    }

    /// Every column has one entry per entity.
    pub open spec fn sizes_ok(&self) -> bool {
        let n = self.core@.len();
        &&& self.position@.len() == n
        &&& self.mass@.len() == n
        &&& self.direction@.len() == n
        &&& self.timer@.len() == n
        &&& self.flags@.len() == n
        &&& self.lifetime@.len() == n
        &&& self.index_matrix_simple@.len() == n
        &&& self.special@.len() == n
        &&& self.buffer@.len() == n
        &&& self.buffer2@.len() == n
    }

    /// Each entity knows its index, and its handle leads back to it; a live
    /// slot of the pointer table leads to the entity that owns it.
    pub open spec fn pointers_ok(&self) -> bool {
        &&& forall|i: int| 0 <= i < self.core@.len() ==> {
            &&& #[trigger] self.core@[i].index.main == i
            &&& self.core@[i].index.main_ptr < self.main_ptrs@.len()
            &&& self.main_ptrs@[self.core@[i].index.main_ptr as int] == Some(i as usize)
        }
        &&& forall|h: int| 0 <= h < self.main_ptrs@.len() && (#[trigger] self.main_ptrs@[h]) is Some ==> {
            &&& self.main_ptrs@[h].unwrap() < self.core@.len()
            &&& self.core@[self.main_ptrs@[h].unwrap() as int].index.main_ptr == h
        }
    }

    pub open spec fn wf(&self) -> bool {
        &&& self.sizes_ok()
        &&& self.pointers_ok()
    }

    /// Only the grid indexes differ from `before`.
    pub open spec fn same_but_grid_index(&self, before: &Entities) -> bool {
        &&& self.core == before.core
        &&& self.position == before.position
        &&& self.mass == before.mass
        &&& self.direction == before.direction
        &&& self.timer == before.timer
        &&& self.flags == before.flags
        &&& self.lifetime == before.lifetime
        &&& self.index_matrix_simple@.len() == before.index_matrix_simple@.len()
        &&& self.special == before.special
        &&& self.buffer == before.buffer
        &&& self.buffer2 == before.buffer2
        &&& self.main_ptrs == before.main_ptrs
    }

    /// No entity.
    pub fn new() -> (e: Entities)
        ensures
            e.wf(),
            e.core@.len() == 0,
            e.main_ptrs@.len() == 0,
    {
        Entities {
            core: Vec::new(),
            position: Vec::new(),
            mass: Vec::new(),
            direction: Vec::new(),
            timer: Vec::new(),
            flags: Vec::new(),
            lifetime: Vec::new(),
            index_matrix_simple: Vec::new(),
            special: Vec::new(),
            buffer: Vec::new(),
            buffer2: Vec::new(),
            main_ptrs: Vec::new(),
        }
    }

    pub fn len(&self) -> (n: usize)
        ensures
            n == self.core@.len(),
    {
        self.core.len()
    }

    /// Appends an entity made from `info`: its position is clamped onto the
    /// map, its mass into its bounds, its flags follow its characteristics,
    /// and a new slot of the pointer table follows it. Returns its index.
    pub fn new_entity(&mut self, map: &GameMap, info: EntityInfo) -> (index: usize)
        requires
            old(self).wf(),
            map.wf(),
            info.characteristics.mass_min <= info.characteristics.mass_max,
            old(self).core@.len() < usize::MAX,
            old(self).main_ptrs@.len() < usize::MAX,
        ensures
            final(self).wf(),
            index == old(self).core@.len(),
            final(self).core@.len() == index + 1,
            final(self).main_ptrs@ == old(self).main_ptrs@.push(Some(index)),
            final(self).core@.drop_last() == old(self).core@,
            final(self).position@.drop_last() == old(self).position@,
            final(self).mass@.drop_last() == old(self).mass@,
            final(self).direction@.drop_last() == old(self).direction@,
            final(self).timer@.drop_last() == old(self).timer@,
            final(self).flags@.drop_last() == old(self).flags@,
            final(self).lifetime@.drop_last() == old(self).lifetime@,
            final(self).index_matrix_simple@.drop_last() == old(self).index_matrix_simple@,
            final(self).special@.drop_last() == old(self).special@,
            final(self).buffer@.drop_last() == old(self).buffer@,
            final(self).buffer2@.drop_last() == old(self).buffer2@,
            final(self).buffer@[index as int]@.len() == 0,
            final(self).buffer2@[index as int]@.len() == 0,
            ({
                let c = final(self).core@[index as int];
                &&& c.alive
                &&& c.player == info.player
                &&& c.color == info.color
                &&& c.characteristics == info.characteristics
                &&& c.index == (EntityIndex {
                    main: index,
                    main_ptr: old(self).main_ptrs@.len() as usize,
                    player: 0,
                    texture: info.texture,
                    unique_id: 0,
                    drawing_buffer: usize::MAX,
                })
                &&& c.killed is None
            }),
            final(self).position@[index as int].x == clamp_spec(info.position.x as int, 0, map.max_spec().width as int),
            final(self).position@[index as int].y == clamp_spec(info.position.y as int, 0, map.max_spec().height as int),
            final(self).mass@[index as int] == clamp_spec(
                info.mass as int,
                info.characteristics.mass_min as int,
                info.characteristics.mass_max as int,
            ),
            final(self).direction@[index as int] is None,
            final(self).timer@[index as int] == info.timer,
            initial_flags(final(self).flags@[index as int], info.characteristics),
            final(self).lifetime@[index as int] == 0,
            final(self).index_matrix_simple@[index as int] == (MatrixIndex { x: 0, y: 0, z: 0 }),
            final(self).special@[index as int]@.len() == info.characteristics.special@.len(),
    {
        let index = self.core.len();
        let handle = self.main_ptrs.len();
        let max = map.max();

        let mut position = info.position;
        if position.x <= 0 {
            position.x = 0;
        }
        if position.x > max.width {
            position.x = max.width;
        }
        if position.y <= 0 {
            position.y = 0;
        }
        if position.y > max.height {
            position.y = max.height;
        }

        let mass_capped = if info.mass <= info.characteristics.mass_max { info.mass } else { info.characteristics.mass_max };
        let mass = if mass_capped >= info.characteristics.mass_min { mass_capped } else { info.characteristics.mass_min };

        let entity_flags = flags_of(&info.characteristics);

        let timer = info.timer;
        let special = info.characteristics.special.clone();
        let mut entity_core = EntityCore::new(info, map);
        entity_core.index.main = index;
        entity_core.index.main_ptr = handle;

        self.core.push(entity_core);
        self.position.push(position);
        self.mass.push(mass);
        self.direction.push(None);
        self.timer.push(timer);
        self.flags.push(entity_flags);
        self.lifetime.push(0);
        self.index_matrix_simple.push(MatrixIndex { x: 0, y: 0, z: 0 });
        self.special.push(special);
        self.buffer.push(Vec::new());
        self.buffer2.push(Vec::new());
        self.main_ptrs.push(Some(index));
        proof {
            assert(self.core@.drop_last() =~= old(self).core@);
            assert(self.position@.drop_last() =~= old(self).position@);
            assert(self.mass@.drop_last() =~= old(self).mass@);
            assert(self.direction@.drop_last() =~= old(self).direction@);
            assert(self.timer@.drop_last() =~= old(self).timer@);
            assert(self.flags@.drop_last() =~= old(self).flags@);
            assert(self.lifetime@.drop_last() =~= old(self).lifetime@);
            assert(self.index_matrix_simple@.drop_last() =~= old(self).index_matrix_simple@);
            assert(self.special@.drop_last() =~= old(self).special@);
            assert(self.buffer@.drop_last() =~= old(self).buffer@);
            assert(self.buffer2@.drop_last() =~= old(self).buffer2@);
            assert forall|i: int| 0 <= i < self.core@.len() implies {
                &&& #[trigger] self.core@[i].index.main == i
                &&& self.core@[i].index.main_ptr < self.main_ptrs@.len()
                &&& self.main_ptrs@[self.core@[i].index.main_ptr as int] == Some(i as usize)
            } by {
                if i < index {
                    assert(self.core@[i] == old(self).core@[i]);
                    assert(old(self).core@[i].index.main == i);
                }
            }
            assert forall|h: int| 0 <= h < self.main_ptrs@.len() && (#[trigger] self.main_ptrs@[h]) is Some implies {
                &&& self.main_ptrs@[h].unwrap() < self.core@.len()
                &&& self.core@[self.main_ptrs@[h].unwrap() as int].index.main_ptr == h
            } by {
                if h < handle {
                    assert(old(self).main_ptrs@[h] is Some);
                    let i = old(self).main_ptrs@[h].unwrap();
                    assert(self.core@[i as int] == old(self).core@[i as int]);
                }
            }
        }
        index
    }

    /// Removes the entity at `index` from every column by moving the last
    /// entity into its place; its slot of the pointer table becomes dead.
    /// The moved entity keeps its recorded index until it is told its new
    /// one.
    pub fn swap_remove(&mut self, index: usize)
        requires
            old(self).sizes_ok(),
            index < old(self).core@.len(),
            old(self).core@[index as int].index.main_ptr < old(self).main_ptrs@.len(),
        ensures
            final(self).sizes_ok(),
            final(self).core@ == old(self).core@.update(index as int, old(self).core@.last()).drop_last(),
            final(self).position@ == old(self).position@.update(index as int, old(self).position@.last()).drop_last(),
            final(self).mass@ == old(self).mass@.update(index as int, old(self).mass@.last()).drop_last(),
            final(self).direction@ == old(self).direction@.update(index as int, old(self).direction@.last()).drop_last(),
            final(self).timer@ == old(self).timer@.update(index as int, old(self).timer@.last()).drop_last(),
            final(self).flags@ == old(self).flags@.update(index as int, old(self).flags@.last()).drop_last(),
            final(self).lifetime@ == old(self).lifetime@.update(index as int, old(self).lifetime@.last()).drop_last(),
            final(self).index_matrix_simple@ == old(self).index_matrix_simple@.update(
                index as int,
                old(self).index_matrix_simple@.last(),
            ).drop_last(),
            final(self).special@ == old(self).special@.update(index as int, old(self).special@.last()).drop_last(),
            final(self).buffer@ == old(self).buffer@.update(index as int, old(self).buffer@.last()).drop_last(),
            final(self).buffer2@ == old(self).buffer2@.update(index as int, old(self).buffer2@.last()).drop_last(),
            final(self).main_ptrs@ == old(self).main_ptrs@.update(
                old(self).core@[index as int].index.main_ptr as int,
                None,
            ),
    {
        let handle = self.core[index].index.main_ptr;
        self.main_ptrs.set(handle, None);
        self.core.swap_remove(index);
        self.position.swap_remove(index);
        self.mass.swap_remove(index);
        self.direction.swap_remove(index);
        self.timer.swap_remove(index);
        self.flags.swap_remove(index);
        self.lifetime.swap_remove(index);
        self.index_matrix_simple.swap_remove(index);
        self.special.swap_remove(index);
        self.buffer.swap_remove(index);
        self.buffer2.swap_remove(index);
    }

    /// Tells the entity at `index` that it now lives there: its recorded
    /// index and its slot of the pointer table both become `index`.
    pub fn store_main_ptr(&mut self, index: usize)
        requires
            index < old(self).core@.len(),
            old(self).core@[index as int].index.main_ptr < old(self).main_ptrs@.len(),
        ensures
            final(self).core@ == old(self).core@.update(
                index as int,
                EntityCore {
                    index: EntityIndex { main: index, ..old(self).core@[index as int].index },
                    ..old(self).core@[index as int]
                },
            ),
            final(self).main_ptrs@ == old(self).main_ptrs@.update(
                old(self).core@[index as int].index.main_ptr as int,
                Some(index),
            ),
            final(self).position == old(self).position,
            final(self).mass == old(self).mass,
            final(self).direction == old(self).direction,
            final(self).timer == old(self).timer,
            final(self).flags == old(self).flags,
            final(self).lifetime == old(self).lifetime,
            final(self).index_matrix_simple == old(self).index_matrix_simple,
            final(self).special == old(self).special,
            final(self).buffer == old(self).buffer,
            final(self).buffer2 == old(self).buffer2,
    {
        let handle = self.core[index].index.main_ptr;
        self.core[index].index.main = index;
        assert(self.core@ =~= old(self).core@.update(
            index as int,
            EntityCore {
                index: EntityIndex { main: index, ..old(self).core@[index as int].index },
                ..old(self).core@[index as int]
            },
        ));
        self.main_ptrs.set(handle, Some(index));
    }

    /// The index that the handle leads to, or `None` once its entity died.
    pub fn main_ptr_upgrade(&self, handle: usize) -> (index: Option<usize>)
        requires
            handle < self.main_ptrs@.len(),
        ensures
            index == self.main_ptrs@[handle as int],
    {
        self.main_ptrs[handle]
    }

    /// Removes every entity; their slots of the pointer table all die.
    pub fn clear(&mut self)
        ensures
            final(self).wf(),
            final(self).core@.len() == 0,
            final(self).main_ptrs@.len() == old(self).main_ptrs@.len(),
            forall|h: int| 0 <= h < final(self).main_ptrs@.len() ==> #[trigger] final(self).main_ptrs@[h] is None,
    {
        self.core.clear();
        self.position.clear();
        self.mass.clear();
        self.direction.clear();
        self.timer.clear();
        self.flags.clear();
        self.lifetime.clear();
        self.index_matrix_simple.clear();
        self.special.clear();
        self.buffer.clear();
        self.buffer2.clear();
        let n = self.main_ptrs.len();
        let mut h: usize = 0;
        while h < n
            invariant
                n == self.main_ptrs@.len(),
                h <= n,
                self.sizes_ok(),
                self.core@.len() == 0,
                forall|k: int| 0 <= k < h ==> #[trigger] self.main_ptrs@[k] is None,
            decreases n - h,
        {
            self.main_ptrs.set(h, None);
            h = h + 1;
        }
    }

    /// Some change waits in the first buffer of the entity.
    pub fn buffer_is_some(&self, entity_index: usize) -> (b: bool)
        requires
            entity_index < self.buffer@.len(),
        ensures
            b == (self.buffer@[entity_index as int]@.len() > 0),
    {
        self.buffer[entity_index].len() > 0
    }

    /// Some change waits in the second buffer of the entity.
    pub fn buffer2_is_some(&self, entity_index: usize) -> (b: bool)
        requires
            entity_index < self.buffer2@.len(),
        ensures
            b == (self.buffer2@[entity_index as int]@.len() > 0),
    {
        self.buffer2[entity_index].len() > 0
    }

    /// Appends a change to the first buffer of the entity.
    pub fn send_buffer(&mut self, entity_index: usize, action: EntityAction)
        requires
            entity_index < old(self).buffer@.len(),
        ensures
            final(self).buffer@.len() == old(self).buffer@.len(),
            final(self).buffer@[entity_index as int]@ == old(self).buffer@[entity_index as int]@.push(action),
            forall|j: int| 0 <= j < old(self).buffer@.len() && j != entity_index ==> #[trigger] final(self).buffer@[j]
                == old(self).buffer@[j],
            final(self).buffer2 == old(self).buffer2,
            final(self).core == old(self).core,
            final(self).position == old(self).position,
            final(self).mass == old(self).mass,
            final(self).direction == old(self).direction,
            final(self).timer == old(self).timer,
            final(self).flags == old(self).flags,
            final(self).lifetime == old(self).lifetime,
            final(self).index_matrix_simple == old(self).index_matrix_simple,
            final(self).special == old(self).special,
            final(self).main_ptrs == old(self).main_ptrs,
    {
        self.buffer[entity_index].push(action);
    }

    /// Appends a change to the second buffer of the entity.
    pub fn send_buffer2(&mut self, entity_index: usize, action: EntityAction)
        requires
            entity_index < old(self).buffer2@.len(),
        ensures
            final(self).buffer2@.len() == old(self).buffer2@.len(),
            final(self).buffer2@[entity_index as int]@ == old(self).buffer2@[entity_index as int]@.push(action),
            forall|j: int| 0 <= j < old(self).buffer2@.len() && j != entity_index ==> #[trigger] final(self).buffer2@[j]
                == old(self).buffer2@[j],
            final(self).buffer == old(self).buffer,
            final(self).core == old(self).core,
            final(self).position == old(self).position,
            final(self).mass == old(self).mass,
            final(self).direction == old(self).direction,
            final(self).timer == old(self).timer,
            final(self).flags == old(self).flags,
            final(self).lifetime == old(self).lifetime,
            final(self).index_matrix_simple == old(self).index_matrix_simple,
            final(self).special == old(self).special,
            final(self).main_ptrs == old(self).main_ptrs,
    {
        self.buffer2[entity_index].push(action);
    }

    /// Takes the changes of the first buffer of the entity, in the order
    /// they came, and leaves it empty.
    pub fn receive_buffer(&mut self, entity_index: usize) -> (actions: Vec<EntityAction>)
        requires
            entity_index < old(self).buffer@.len(),
        ensures
            actions@ == old(self).buffer@[entity_index as int]@,
            final(self).buffer@.len() == old(self).buffer@.len(),
            final(self).buffer@[entity_index as int]@.len() == 0,
            forall|j: int| 0 <= j < old(self).buffer@.len() && j != entity_index ==> #[trigger] final(self).buffer@[j]
                == old(self).buffer@[j],
            final(self).buffer2 == old(self).buffer2,
            final(self).core == old(self).core,
            final(self).position == old(self).position,
            final(self).mass == old(self).mass,
            final(self).direction == old(self).direction,
            final(self).timer == old(self).timer,
            final(self).flags == old(self).flags,
            final(self).lifetime == old(self).lifetime,
            final(self).index_matrix_simple == old(self).index_matrix_simple,
            final(self).special == old(self).special,
            final(self).main_ptrs == old(self).main_ptrs,
    {
        let mut actions: Vec<EntityAction> = Vec::new();
        std::mem::swap(&mut actions, &mut self.buffer[entity_index]);
        actions
    }

    /// Takes the changes of the second buffer of the entity, in the order
    /// they came, and leaves it empty.
    pub fn receive_buffer2(&mut self, entity_index: usize) -> (actions: Vec<EntityAction>)
        requires
            entity_index < old(self).buffer2@.len(),
        ensures
            actions@ == old(self).buffer2@[entity_index as int]@,
            final(self).buffer2@.len() == old(self).buffer2@.len(),
            final(self).buffer2@[entity_index as int]@.len() == 0,
            forall|j: int| 0 <= j < old(self).buffer2@.len() && j != entity_index ==> #[trigger] final(self).buffer2@[j]
                == old(self).buffer2@[j],
            final(self).buffer == old(self).buffer,
            final(self).core == old(self).core,
            final(self).position == old(self).position,
            final(self).mass == old(self).mass,
            final(self).direction == old(self).direction,
            final(self).timer == old(self).timer,
            final(self).flags == old(self).flags,
            final(self).lifetime == old(self).lifetime,
            final(self).index_matrix_simple == old(self).index_matrix_simple,
            final(self).special == old(self).special,
            final(self).main_ptrs == old(self).main_ptrs,
    {
        let mut actions: Vec<EntityAction> = Vec::new();
        std::mem::swap(&mut actions, &mut self.buffer2[entity_index]);
        actions
    }

    /// The square that bounds the entity of radius `radius`: centred on its
    /// position, `2 * radius` wide.
    pub fn get_rect(&self, entity_index: usize, radius: i32) -> (r: Rect)
        requires
            entity_index < self.position@.len(),
            0 <= radius,
            2 * radius <= i32::MAX,
            i32::MIN <= self.position@[entity_index as int].x - radius,
            self.position@[entity_index as int].x + radius <= i32::MAX,
            i32::MIN <= self.position@[entity_index as int].y - radius,
            self.position@[entity_index as int].y + radius <= i32::MAX,
        ensures
            r.origin.x == self.position@[entity_index as int].x - radius,
            r.origin.y == self.position@[entity_index as int].y - radius,
            r.size.width == 2 * radius,
            r.size.height == 2 * radius,
            r.fits(),
    {
        let p = self.position[entity_index];
        Rect::new(Point2D::new(p.x - radius, p.y - radius), Size2D::new(2 * radius, 2 * radius))
    }
}

} // verus!
