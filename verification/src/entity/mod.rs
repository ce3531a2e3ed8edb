pub mod index;
pub mod flags;
pub mod entities;

use vstd::prelude::*;
use crate::geometry::Point2D;

verus! {

/// Mass units per unit of displayed mass.
pub const RATIO_MASS: i64 = 1_000_000;

/// The colours of a cell: its centre and its edge, as RGBA.
#[derive(Clone, Copy, Debug)]
pub struct EntityColor {
    pub center: [u8; 4],
    pub edge: [u8; 4],
}

impl Default for EntityColor {
    /// Grey centre, black edge.
    fn default() -> (c: EntityColor)
        ensures
            c.center@ == seq![128u8, 128, 128, 255],
            c.edge@ == seq![0u8, 0, 0, 255],
    {
        let c = EntityColor { center: [128, 128, 128, 255], edge: [0, 0, 0, 255] };
        assert(c.center@ =~= seq![128u8, 128, 128, 255]);
        assert(c.edge@ =~= seq![0u8, 0, 0, 255]);
        c
    }
}

/// Count-downs of an entity, in updates; `None` when not running.
#[derive(Clone, Copy, PartialEq, Eq, Structural, Debug)]
pub struct EntityTimer {
    pub collision: Option<i32>,
    pub collision_ratio: Option<i32>,
    pub mergeable: Option<i32>,
    pub inertia: Option<i32>,
    pub lifetime_left: Option<i32>,
}

impl EntityTimer {
    /// No count-down is running.
    pub open spec fn is_idle(self) -> bool {
        &&& self.collision is None
        &&& self.collision_ratio is None
        &&& self.mergeable is None
        &&& self.inertia is None
        &&& self.lifetime_left is None
    }
}

impl Default for EntityTimer {
    fn default() -> (t: EntityTimer)
        ensures
            t.is_idle(),
    {
        EntityTimer { collision: None, collision_ratio: None, mergeable: None, inertia: None, lifetime_left: None }
    }
}

/// What happens to the killer of an entity.
#[derive(Clone, Copy, PartialEq, Eq, Structural, Debug)]
pub enum OnDeathEffect {
    Split(usize),
}

/// How the pull of a gravity source falls with the distance.
#[derive(Clone, Copy, PartialEq, Eq, Structural, Debug)]
pub enum DistanceRatio {
    Linear,
    Squared,
}

/// A script attached to an entity.
#[derive(Clone, Debug)]
pub enum EntitySpecial {
    WASM(String),
}

/// Colour given to the entities that an entity throws.
#[derive(Clone, Debug)]
pub enum ThrownEntityColor {
    Same,
    Custom(EntityColor),
    Random(Vec<EntityColor>),
}

impl ThrownEntityColor {
    /// An empty random palette gets the default colour; nothing else changes.
    pub fn validate(&mut self)
        ensures
            match *old(self) {
                ThrownEntityColor::Random(v) => v@.len() == 0 ==> (*final(self) matches
                    ThrownEntityColor::Random(w) && w@.len() == 1 && is_default_color(w@[0])),
                _ => true,
            },
            !(*old(self) matches ThrownEntityColor::Random(v) && v@.len() == 0) ==> *final(self)
                == *old(self),
    {
        match self {
            ThrownEntityColor::Random(vec) => {
                if vec.len() == 0 {
                    vec.push(EntityColor::default());
                }
            },
            _ => {},
        }
    }
}

/// Grey centre, black edge: the colour that `EntityColor::default` gives.
pub open spec fn is_default_color(c: EntityColor) -> bool {
    &&& c.center@ == seq![128u8, 128, 128, 255]
    &&& c.edge@ == seq![0u8, 0, 0, 255]
}

/// A half-open range of integers, `start..end`.
#[derive(Clone, Copy, PartialEq, Eq, Structural, Debug)]
pub struct IntRange<T> {
    pub start: T,
    pub end: T,
}

/// Texture given to the entities that an entity throws.
#[derive(Clone, Debug)]
pub enum ThrownEntityTexture {
    Same,
    CustomIndex(usize),
    Random(Vec<usize>),
}

/// Characteristics given to the entities that an entity throws.
#[derive(Debug)]
pub enum ThrownEntityCharacteristics {
    Same,
    Custom(Box<EntityCharacteristics>),
    CustomIndex(usize),
}

/// The integer part of a gravity source: how its pull falls with distance.
/// Its strength, distances and speeds are real numbers kept beside it.
#[derive(Clone, Copy, Debug)]
pub struct EntityGravityInfo {
    pub distance_ratio: DistanceRatio,
}

/// How an entity throws smaller entities around it. Its ratio and the
/// range of angles are real numbers kept beside it.
#[derive(Debug)]
pub struct ThrowEntityInfo {
    pub mass_minimum_to_throw: i64,
    pub mass_self_added: i64,
    pub mass_entity_thrown: i64,
    pub power: IntRange<i32>,
    pub color: ThrownEntityColor,
    pub texture: ThrownEntityTexture,
    pub timer_entity_thrown: EntityTimer,
    pub characteristics_entity_thrown: ThrownEntityCharacteristics,
}

/// What an entity is and can do. The rate of its mass evolution and its
/// gravity strength are real numbers kept beside it.
#[derive(Debug)]
pub struct EntityCharacteristics {
    pub killer: bool,
    pub collide: bool,
    pub collide_when_mergeable: bool,
    pub mergeable: bool,
    pub affected_by_gravity: bool,
    pub bounce: bool,
    pub can_split_on_kill: bool,
    pub invincible: bool,
    pub inertia: i32,
    pub mass_min: i64,
    pub mass_max: i64,
    pub on_death: Option<OnDeathEffect>,
    pub gravity: Option<EntityGravityInfo>,
    pub throw_entity: Option<ThrowEntityInfo>,
    pub special: Vec<EntitySpecial>,
}

impl ThrownEntityCharacteristics {
    /// Custom characteristics are validated in place.
    pub fn validate(&mut self)
        requires
            match *old(self) {
                ThrownEntityCharacteristics::Custom(c) => characteristics_validatable(*c),
                _ => true,
            },
        ensures
            thrown_characteristics_ok(*final(self), *old(self)),
        decreases *old(self),
    {
        match self {
            ThrownEntityCharacteristics::Custom(e) => {
                (&mut **e).validate();
            },
            _ => {},
        }
    }
}

impl ThrowEntityInfo {
    /// The power range starts at zero or above and holds at least one value;
    /// the colour and the thrown characteristics are validated.
    pub fn validate(&mut self)
        requires
            throw_validatable(*old(self)),
        ensures
            throw_ok(*final(self), *old(self)),
        decreases *old(self),
    {
        self.power.start = if self.power.start >= 0 { self.power.start } else { 0 };
        let least_end = self.power.start + 1;
        self.power.end = if self.power.end >= least_end { self.power.end } else { least_end };
        self.color.validate();
        self.characteristics_entity_thrown.validate();
    }
}

impl EntityCharacteristics {
    /// An entity that does not collide does not collide when mergeable
    /// either; inertia is not negative; the minimum mass is at least 1 and
    /// the maximum mass at least the minimum; the throw settings are
    /// validated.
    pub fn validate(&mut self)
        requires
            characteristics_validatable(*old(self)),
        ensures
            characteristics_ok(*final(self), *old(self)),
        decreases *old(self),
    {
        if !self.collide {
            self.collide_when_mergeable = false;
        }
        self.inertia = if self.inertia >= 0 { self.inertia } else { 0 };
        self.mass_min = if self.mass_min >= 1 { self.mass_min } else { 1 };
        self.mass_max = if self.mass_max >= self.mass_min { self.mass_max } else { self.mass_min };
        match &mut self.throw_entity {
            Some(info) => {
                info.validate();
            },
            None => {},
        }
    }
}

impl Default for EntityCharacteristics {
    /// A plain mergeable cell that bounces, moves under gravity and weighs
    /// between one and a million units of displayed mass.
    fn default() -> (c: EntityCharacteristics)
        ensures
            !c.killer,
            !c.collide,
            !c.collide_when_mergeable,
            c.mergeable,
            c.affected_by_gravity,
            c.bounce,
            !c.can_split_on_kill,
            !c.invincible,
            c.inertia == 10,
            c.mass_min == 1_000_000,
            c.mass_max == 1_000_000_000_000,
            c.on_death is None,
            c.gravity is None,
            c.throw_entity is None,
            c.special@.len() == 0,
    {
        EntityCharacteristics {
            killer: false,
            collide: false,
            collide_when_mergeable: false,
            mergeable: true,
            affected_by_gravity: true,
            bounce: true,
            can_split_on_kill: false,
            invincible: false,
            inertia: 10,
            mass_min: 1_000_000,
            mass_max: 1_000_000_000_000,
            on_death: None,
            gravity: None,
            throw_entity: None,
            special: Vec::new(),
        }
    }
}

impl Default for ThrowEntityInfo {
    /// Throws above 200 units of mass, two units at a time, at a power of
    /// 500 to 1000, each throw costing one unit.
    fn default() -> (t: ThrowEntityInfo)
        ensures
            t.mass_minimum_to_throw == 200_000_000,
            t.mass_self_added == -1_000_000,
            t.mass_entity_thrown == 2_000_000,
            t.power == (IntRange::<i32> { start: 500, end: 1_000 }),
            t.color is Same,
            t.texture is Same,
            t.timer_entity_thrown.is_idle(),
            t.characteristics_entity_thrown is Same,
    {
        ThrowEntityInfo {
            mass_minimum_to_throw: 200_000_000,
            mass_self_added: -1_000_000,
            mass_entity_thrown: 2_000_000,
            power: IntRange { start: 500, end: 1_000 },
            color: ThrownEntityColor::Same,
            texture: ThrownEntityTexture::Same,
            timer_entity_thrown: EntityTimer::default(),
            characteristics_entity_thrown: ThrownEntityCharacteristics::Same,
        }
    }
}

/// A change waiting in an entity's buffer, applied when the buffers are
/// emptied at the end of an update. Speed changes are real numbers and
/// wait beside these.
#[derive(Clone, Copy, Debug)]
pub enum EntityAction {
    AddCollisionRatioTime(i32),
    AddCollisionTime(i32),
    AddPosition(i32, i32),
    AddMass(i64),
    AddMergeableTime(i32),
    AddInertiaTime(i32),
    AddLifetimeLeftTime(i32),
    Killed(usize),
    KilledConfirmed(usize),
    SetColor(EntityColor),
    Split(usize),
}

/// What a new entity is made from. Its speed is a real number kept beside
/// it.
#[derive(Debug)]
pub struct EntityInfo {
    pub player: usize,
    pub position: Point2D,
    pub mass: i64,
    pub color: EntityColor,
    pub texture: usize,
    pub timer: EntityTimer,
    pub characteristics: EntityCharacteristics,
}

impl Default for EntityInfo {
    fn default() -> (info: EntityInfo)
        ensures
            info.player == 0,
            info.position == (Point2D { x: 0, y: 0 }),
            info.mass == 0,
            is_default_color(info.color),
            info.texture == 0,
            info.timer.is_idle(),
            info.characteristics.mass_min == 1_000_000,
            info.characteristics.mass_max == 1_000_000_000_000,
    {
        EntityInfo {
            player: 0,
            position: Point2D { x: 0, y: 0 },
            mass: 0,
            color: EntityColor::default(),
            texture: 0,
            timer: EntityTimer::default(),
            characteristics: EntityCharacteristics::default(),
        }
    }
}

impl EntityInfo {
    /// Brings the description within the game: a player beyond the players
    /// becomes the last one, the position is clamped onto the map, the
    /// characteristics are validated and the mass is raised to their
    /// minimum, then lowered to their maximum.
    pub fn validate(&mut self, game: &crate::game::Game)
        requires
            game.players@.len() > 0,
            game.map.wf(),
            characteristics_validatable(old(self).characteristics),
        ensures
            final(self).player == if old(self).player >= game.players@.len() {
                (game.players@.len() - 1) as usize
            } else {
                old(self).player
            },
            final(self).position.x == min_int(max_int(old(self).position.x as int, 0), game.map.max_spec().width as int),
            final(self).position.y == min_int(max_int(old(self).position.y as int, 0), game.map.max_spec().height as int),
            characteristics_ok(final(self).characteristics, old(self).characteristics),
            final(self).mass == min_int(
                max_int(old(self).mass as int, final(self).characteristics.mass_min as int),
                final(self).characteristics.mass_max as int,
            ),
            final(self).color == old(self).color,
            final(self).texture == old(self).texture,
            final(self).timer == old(self).timer,
    {
        if self.player >= game.players.len() {
            self.player = game.players.len() - 1;
        }
        let max = game.map.max();
        let x = if self.position.x >= 0 { self.position.x } else { 0 };
        self.position.x = if x <= max.width { x } else { max.width };
        let y = if self.position.y >= 0 { self.position.y } else { 0 };
        self.position.y = if y <= max.height { y } else { max.height };
        self.characteristics.validate();
        let m = if self.mass >= self.characteristics.mass_min { self.mass } else { self.characteristics.mass_min };
        self.mass = if m <= self.characteristics.mass_max { m } else { self.characteristics.mass_max };
    }

    /// The description of entity `entity_index` as it is now: its player,
    /// position, mass, colour, texture, timers and characteristics.
    pub fn from_entity(game: &crate::game::Game, entity_index: usize) -> (info: EntityInfo)
        requires
            game.entities.sizes_ok(),
            entity_index < game.entities.core@.len(),
        ensures
            info.player == game.entities.core@[entity_index as int].player,
            info.position == game.entities.position@[entity_index as int],
            info.mass == game.entities.mass@[entity_index as int],
            info.color == game.entities.core@[entity_index as int].color,
            info.texture == game.entities.core@[entity_index as int].index.texture,
            info.timer == game.entities.timer@[entity_index as int],
            same_characteristics(info.characteristics, game.entities.core@[entity_index as int].characteristics),
    {
        let core = &game.entities.core[entity_index];
        EntityInfo {
            player: core.player,
            position: game.entities.position[entity_index],
            mass: game.entities.mass[entity_index],
            color: core.color,
            texture: core.index.texture,
            timer: game.entities.timer[entity_index],
            characteristics: core.characteristics.duplicate(),
        }
    }
}

pub open spec fn max_int(a: int, b: int) -> int {
    if a >= b { a } else { b }
}

pub open spec fn min_int(a: int, b: int) -> int {
    if a <= b { a } else { b }
}

/// `EntityCharacteristics::validate` applied to `c`, field by field.
pub open spec fn characteristics_ok(c: EntityCharacteristics, old_c: EntityCharacteristics) -> bool
    decreases old_c,
{
    &&& c.killer == old_c.killer
    &&& c.collide == old_c.collide
    &&& c.collide_when_mergeable == (old_c.collide && old_c.collide_when_mergeable)
    &&& c.mergeable == old_c.mergeable
    &&& c.affected_by_gravity == old_c.affected_by_gravity
    &&& c.bounce == old_c.bounce
    &&& c.can_split_on_kill == old_c.can_split_on_kill
    &&& c.invincible == old_c.invincible
    &&& c.inertia == max_int(old_c.inertia as int, 0)
    &&& c.mass_min == max_int(old_c.mass_min as int, 1)
    &&& c.mass_max == max_int(old_c.mass_max as int, max_int(old_c.mass_min as int, 1))
    &&& c.on_death == old_c.on_death
    &&& c.gravity == old_c.gravity
    &&& c.special == old_c.special
    &&& match (c.throw_entity, old_c.throw_entity) {
        (None, None) => true,
        (Some(t), Some(old_t)) => throw_ok(t, old_t),
        _ => false,
    }
}

/// `c` is a plain cell, as `EntityCharacteristics::default` makes one, but
/// for its bounds of mass and its inertia: it merges, bounces and moves
/// under gravity, and neither kills, collides, splits its killer, attracts
/// nor throws.
pub open spec fn plain_characteristics(c: EntityCharacteristics, mass_min: int, mass_max: int, inertia: int) -> bool {
    &&& !c.killer
    &&& !c.collide
    &&& !c.collide_when_mergeable
    &&& c.mergeable
    &&& c.affected_by_gravity
    &&& c.bounce
    &&& !c.can_split_on_kill
    &&& !c.invincible
    &&& c.inertia == inertia
    &&& c.mass_min == mass_min
    &&& c.mass_max == mass_max
    &&& c.on_death is None
    &&& c.gravity is None
    &&& c.throw_entity is None
    &&& c.special@.len() == 0
}

/// Plain characteristics whose bounds of mass are in order, at least one,
/// and whose inertia is not negative are left as they are by validation.
pub proof fn lemma_plain_characteristics_valid(c: EntityCharacteristics, c1: EntityCharacteristics, mass_min: int, mass_max: int, inertia: int)
    requires
        plain_characteristics(c, mass_min, mass_max, inertia),
        1 <= mass_min <= mass_max,
        0 <= inertia,
        characteristics_ok(c1, c),
    ensures
        characteristics_validatable(c),
        c1 == c,
{
}

/// Validating characteristics a second time changes nothing, and the
/// validated characteristics can be validated again.
pub proof fn lemma_characteristics_validate_idempotent(
    c0: EntityCharacteristics,
    c1: EntityCharacteristics,
    c2: EntityCharacteristics,
)
    requires
        characteristics_validatable(c0),
        characteristics_ok(c1, c0),
        characteristics_ok(c2, c1),
    ensures
        characteristics_validatable(c1),
        c2 == c1,
    decreases c0,
{
    match (c0.throw_entity, c1.throw_entity, c2.throw_entity) {
        (Some(t0), Some(t1), Some(t2)) => {
            match (t0.characteristics_entity_thrown, t1.characteristics_entity_thrown, t2.characteristics_entity_thrown) {
                (
                    ThrownEntityCharacteristics::Custom(x0),
                    ThrownEntityCharacteristics::Custom(x1),
                    ThrownEntityCharacteristics::Custom(x2),
                ) => {
                    lemma_characteristics_validate_idempotent(*x0, *x1, *x2);
                    assert(t2.characteristics_entity_thrown == t1.characteristics_entity_thrown);
                },
                _ => {},
            }
            assert(t2.color == t1.color) by {
                match t0.color {
                    ThrownEntityColor::Random(v) => {},
                    _ => {},
                }
            }
            assert(t2 == t1);
        },
        _ => {},
    }
}

/// `ThrowEntityInfo::validate` applied to `t`, field by field.
pub open spec fn throw_ok(t: ThrowEntityInfo, old_t: ThrowEntityInfo) -> bool
    decreases old_t,
{
    &&& t.mass_minimum_to_throw == old_t.mass_minimum_to_throw
    &&& t.mass_self_added == old_t.mass_self_added
    &&& t.mass_entity_thrown == old_t.mass_entity_thrown
    &&& t.power.start == max_int(old_t.power.start as int, 0)
    &&& t.power.end == max_int(old_t.power.end as int, max_int(old_t.power.start as int, 0) + 1)
    &&& color_ok(t.color, old_t.color)
    &&& t.texture == old_t.texture
    &&& t.timer_entity_thrown == old_t.timer_entity_thrown
    &&& thrown_characteristics_ok(t.characteristics_entity_thrown, old_t.characteristics_entity_thrown)
}

/// `ThrownEntityCharacteristics::validate` applied to `x`.
pub open spec fn thrown_characteristics_ok(x: ThrownEntityCharacteristics, old_x: ThrownEntityCharacteristics) -> bool
    decreases old_x,
{
    match (x, old_x) {
        (ThrownEntityCharacteristics::Custom(c), ThrownEntityCharacteristics::Custom(old_c)) =>
            characteristics_ok(*c, *old_c),
        (ThrownEntityCharacteristics::Custom(_), _) => false,
        (_, ThrownEntityCharacteristics::Custom(_)) => false,
        _ => x == old_x,
    }
}

/// `ThrownEntityColor::validate` applied to `c`.
pub open spec fn color_ok(c: ThrownEntityColor, old_c: ThrownEntityColor) -> bool {
    match old_c {
        ThrownEntityColor::Random(v) => if v@.len() == 0 {
            c matches ThrownEntityColor::Random(w) && w@.len() == 1 && is_default_color(w@[0])
        } else {
            c == old_c
        },
        _ => c == old_c,
    }
}

/// Power ranges can be validated without overflow.
pub open spec fn throw_validatable(t: ThrowEntityInfo) -> bool
    decreases t,
{
    &&& t.power.start < i32::MAX
    &&& match t.characteristics_entity_thrown {
        ThrownEntityCharacteristics::Custom(c) => characteristics_validatable(*c),
        _ => true,
    }
}

pub open spec fn characteristics_validatable(c: EntityCharacteristics) -> bool
    decreases c,
{
    match c.throw_entity {
        Some(t) => throw_validatable(t),
        None => true,
    }
}

/// `a` and `b` agree on every field; lists are compared by their content.
pub open spec fn same_characteristics(a: EntityCharacteristics, b: EntityCharacteristics) -> bool
    decreases a,
{
    &&& a.killer == b.killer
    &&& a.collide == b.collide
    &&& a.collide_when_mergeable == b.collide_when_mergeable
    &&& a.mergeable == b.mergeable
    &&& a.affected_by_gravity == b.affected_by_gravity
    &&& a.bounce == b.bounce
    &&& a.can_split_on_kill == b.can_split_on_kill
    &&& a.invincible == b.invincible
    &&& a.inertia == b.inertia
    &&& a.mass_min == b.mass_min
    &&& a.mass_max == b.mass_max
    &&& a.on_death == b.on_death
    &&& a.gravity == b.gravity
    &&& a.special@ == b.special@
    &&& match (a.throw_entity, b.throw_entity) {
        (None, None) => true,
        (Some(t), Some(u)) => same_throw(t, u),
        _ => false,
    }
}

/// `a` and `b` agree on every field; lists are compared by their content.
pub open spec fn same_throw(a: ThrowEntityInfo, b: ThrowEntityInfo) -> bool
    decreases a,
{
    &&& a.mass_minimum_to_throw == b.mass_minimum_to_throw
    &&& a.mass_self_added == b.mass_self_added
    &&& a.mass_entity_thrown == b.mass_entity_thrown
    &&& a.power == b.power
    &&& same_thrown_color(a.color, b.color)
    &&& same_thrown_texture(a.texture, b.texture)
    &&& a.timer_entity_thrown == b.timer_entity_thrown
    &&& same_thrown_characteristics(a.characteristics_entity_thrown, b.characteristics_entity_thrown)
}

/// The same choice of characteristics, custom ones compared field by field.
pub open spec fn same_thrown_characteristics(a: ThrownEntityCharacteristics, b: ThrownEntityCharacteristics) -> bool
    decreases a,
{
    match (a, b) {
        (ThrownEntityCharacteristics::Custom(c), ThrownEntityCharacteristics::Custom(d)) => same_characteristics(*c, *d),
        (ThrownEntityCharacteristics::Custom(_), _) => false,
        (_, ThrownEntityCharacteristics::Custom(_)) => false,
        _ => a == b,
    }
}

/// The same choice of colour, palettes compared by content.
pub open spec fn same_thrown_color(a: ThrownEntityColor, b: ThrownEntityColor) -> bool {
    match (a, b) {
        (ThrownEntityColor::Random(v), ThrownEntityColor::Random(w)) => v@ == w@,
        (ThrownEntityColor::Random(_), _) => false,
        (_, ThrownEntityColor::Random(_)) => false,
        _ => a == b,
    }
}

/// The same choice of texture, lists compared by content.
pub open spec fn same_thrown_texture(a: ThrownEntityTexture, b: ThrownEntityTexture) -> bool {
    match (a, b) {
        (ThrownEntityTexture::Random(v), ThrownEntityTexture::Random(w)) => v@ == w@,
        (ThrownEntityTexture::Random(_), _) => false,
        (_, ThrownEntityTexture::Random(_)) => false,
        _ => a == b,
    }
}

impl EntitySpecial {
    /// A copy of the script.
    pub fn duplicate(&self) -> (s: EntitySpecial)
        ensures
            s == *self,
    {
        match self {
            EntitySpecial::WASM(name) => EntitySpecial::WASM(name.clone()),
        }
    }
}

/// A copy of a list of scripts.
pub fn duplicate_specials(v: &Vec<EntitySpecial>) -> (w: Vec<EntitySpecial>)
    ensures
        w@ == v@,
{
    let mut w: Vec<EntitySpecial> = Vec::new();
    let mut i: usize = 0;
    while i < v.len()
        invariant
            i <= v@.len(),
            w@ == v@.take(i as int),
        decreases v@.len() - i,
    {
        w.push(v[i].duplicate());
        i = i + 1;
        assert(w@ =~= v@.take(i as int));
    }
    assert(v@.take(v@.len() as int) =~= v@);
    w
}

impl ThrownEntityColor {
    /// A copy of the choice of colour.
    pub fn duplicate(&self) -> (c: ThrownEntityColor)
        ensures
            same_thrown_color(c, *self),
    {
        match self {
            ThrownEntityColor::Same => ThrownEntityColor::Same,
            ThrownEntityColor::Custom(color) => ThrownEntityColor::Custom(*color),
            ThrownEntityColor::Random(v) => {
                let mut w: Vec<EntityColor> = Vec::new();
                let mut i: usize = 0;
                while i < v.len()
                    invariant
                        i <= v@.len(),
                        w@ == v@.take(i as int),
                    decreases v@.len() - i,
                {
                    w.push(v[i]);
                    i = i + 1;
                    assert(w@ =~= v@.take(i as int));
                }
                assert(v@.take(v@.len() as int) =~= v@);
                ThrownEntityColor::Random(w)
            },
        }
    }
}

impl ThrownEntityTexture {
    /// A copy of the choice of texture.
    pub fn duplicate(&self) -> (t: ThrownEntityTexture)
        ensures
            same_thrown_texture(t, *self),
    {
        match self {
            ThrownEntityTexture::Same => ThrownEntityTexture::Same,
            ThrownEntityTexture::CustomIndex(i) => ThrownEntityTexture::CustomIndex(*i),
            ThrownEntityTexture::Random(v) => {
                let mut w: Vec<usize> = Vec::new();
                let mut i: usize = 0;
                while i < v.len()
                    invariant
                        i <= v@.len(),
                        w@ == v@.take(i as int),
                    decreases v@.len() - i,
                {
                    w.push(v[i]);
                    i = i + 1;
                    assert(w@ =~= v@.take(i as int));
                }
                assert(v@.take(v@.len() as int) =~= v@);
                ThrownEntityTexture::Random(w)
            },
        }
    }
}

impl ThrownEntityCharacteristics {
    /// A copy of the choice of characteristics.
    pub fn duplicate(&self) -> (x: ThrownEntityCharacteristics)
        ensures
            same_thrown_characteristics(x, *self),
        decreases *self,
    {
        match self {
            ThrownEntityCharacteristics::Same => ThrownEntityCharacteristics::Same,
            ThrownEntityCharacteristics::CustomIndex(i) => ThrownEntityCharacteristics::CustomIndex(*i),
            ThrownEntityCharacteristics::Custom(c) => ThrownEntityCharacteristics::Custom(Box::new((&**c).duplicate())),
        }
    }
}

impl ThrowEntityInfo {
    /// A copy of the throw settings.
    pub fn duplicate(&self) -> (t: ThrowEntityInfo)
        ensures
            same_throw(t, *self),
        decreases *self,
    {
        ThrowEntityInfo {
            mass_minimum_to_throw: self.mass_minimum_to_throw,
            mass_self_added: self.mass_self_added,
            mass_entity_thrown: self.mass_entity_thrown,
            power: self.power,
            color: self.color.duplicate(),
            texture: self.texture.duplicate(),
            timer_entity_thrown: self.timer_entity_thrown,
            characteristics_entity_thrown: self.characteristics_entity_thrown.duplicate(),
        }
    }
}

impl EntityCharacteristics {
    /// A copy of the characteristics.
    pub fn duplicate(&self) -> (c: EntityCharacteristics)
        ensures
            same_characteristics(c, *self),
        decreases *self,
    {
        let throw_entity = match &self.throw_entity {
            Some(t) => Some(t.duplicate()),
            None => None,
        };
        EntityCharacteristics {
            killer: self.killer,
            collide: self.collide,
            collide_when_mergeable: self.collide_when_mergeable,
            mergeable: self.mergeable,
            affected_by_gravity: self.affected_by_gravity,
            bounce: self.bounce,
            can_split_on_kill: self.can_split_on_kill,
            invincible: self.invincible,
            inertia: self.inertia,
            mass_min: self.mass_min,
            mass_max: self.mass_max,
            on_death: self.on_death,
            gravity: self.gravity,
            throw_entity,
            special: duplicate_specials(&self.special),
        }
    }
}

} // verus!
