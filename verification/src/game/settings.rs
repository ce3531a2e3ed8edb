use vstd::prelude::*;
use crate::entity::{
    EntityCharacteristics, EntityColor, EntityTimer, IntRange, ThrownEntityColor, ThrownEntityTexture,
    characteristics_ok, characteristics_validatable, color_ok, is_default_color, max_int, min_int,
    same_characteristics, same_thrown_color, same_thrown_texture, plain_characteristics,
    lemma_plain_characteristics_valid,
};
use super::Game;
use super::colors::{default_color_random_uniform, has_colors, random_uniform_center};
use crate::entity::RATIO_MASS;

verus! {

/// Where the automatic spawner puts new entities.
#[derive(Clone, Copy, PartialEq, Eq, Structural, Debug)]
pub enum SpawnPosition {
    Exact(i32, i32),
    Random,
    RandomRange(IntRange<i32>, IntRange<i32>),
}

/// `SpawnPosition::validate` applied to `p` on a map whose largest
/// coordinates are `max`.
pub open spec fn spawn_position_validated(p: SpawnPosition, max: crate::geometry::Size2D) -> SpawnPosition {
    match p {
        SpawnPosition::Exact(x, y) => SpawnPosition::Exact(
            min_int(max_int(x as int, 0), max.width - 1) as i32,
            min_int(max_int(y as int, 0), max.height - 1) as i32,
        ),
        SpawnPosition::Random => SpawnPosition::Random,
        SpawnPosition::RandomRange(rx, ry) => SpawnPosition::RandomRange(
            IntRange { start: max_int(rx.start as int, 0) as i32, end: max_int(rx.end as int, max_int(rx.start as int, 0) + 1) as i32 },
            IntRange { start: max_int(ry.start as int, 0) as i32, end: max_int(ry.end as int, max_int(ry.start as int, 0) + 1) as i32 },
        ),
    }
}

impl SpawnPosition {
    /// An exact position is clamped onto the map; a range of positions
    /// starts at zero or above and holds at least one value on each axis.
    pub fn validate(&mut self, game: &Game)
        requires
            game.map.wf(),
            *old(self) matches SpawnPosition::RandomRange(rx, ry) ==> rx.start < i32::MAX && ry.start < i32::MAX,
        ensures
            *final(self) == spawn_position_validated(*old(self), game.map.max_spec()),
    {
        let max = game.map.max();
        match self {
            SpawnPosition::Exact(x, y) => {
                let cx = if *x >= 0 { *x } else { 0 };
                *x = if cx <= max.width - 1 { cx } else { max.width - 1 };
                let cy = if *y >= 0 { *y } else { 0 };
                *y = if cy <= max.height - 1 { cy } else { max.height - 1 };
            },
            SpawnPosition::RandomRange(range_x, range_y) => {
                range_x.start = if range_x.start >= 0 { range_x.start } else { 0 };
                range_y.start = if range_y.start >= 0 { range_y.start } else { 0 };
                let least_x = range_x.start + 1;
                let least_y = range_y.start + 1;
                range_x.end = if range_x.end >= least_x { range_x.end } else { least_x };
                range_y.end = if range_y.end >= least_y { range_y.end } else { least_y };
            },
            SpawnPosition::Random => {},
        }
    }
}

/// The mass the automatic spawner gives new entities.
#[derive(Clone, Debug)]
pub enum AutoSpawnMass {
    Exact(i64),
    Random(Vec<i64>),
    RandomRange(IntRange<i64>),
}

/// `AutoSpawnMass::validate` applied to `old_m`.
pub open spec fn auto_spawn_mass_ok(m: AutoSpawnMass, old_m: AutoSpawnMass) -> bool {
    match old_m {
        AutoSpawnMass::Exact(x) => m == AutoSpawnMass::Exact(max_int(x as int, 0) as i64),
        AutoSpawnMass::Random(v) => m matches AutoSpawnMass::Random(w) && ({
            let src = if v@.len() == 0 { seq![0i64] } else { v@ };
            &&& w@.len() == src.len()
            &&& forall|i: int| 0 <= i < w@.len() ==> #[trigger] w@[i] == max_int(src[i] as int, 0)
        }),
        AutoSpawnMass::RandomRange(r) => m == AutoSpawnMass::RandomRange(
            IntRange { start: max_int(r.start as int, 0) as i64, end: max_int(r.end as int, max_int(r.start as int, 0)) as i64 },
        ),
    }
}

impl AutoSpawnMass {
    /// Masses are not negative, a list of masses is not empty, and a range
    /// of masses does not end before it starts.
    pub fn validate(&mut self)
        ensures
            auto_spawn_mass_ok(*final(self), *old(self)),
    {
        match self {
            AutoSpawnMass::Exact(mass) => {
                *mass = if *mass >= 0 { *mass } else { 0 };
            },
            AutoSpawnMass::Random(mass_vec) => {
                if mass_vec.len() == 0 {
                    mass_vec.push(0);
                }
                let ghost src = mass_vec@;
                let n = mass_vec.len();
                let mut i: usize = 0;
                while i < n
                    invariant
                        n == mass_vec@.len(),
                        src.len() == n,
                        i <= n,
                        forall|j: int| 0 <= j < i ==> #[trigger] mass_vec@[j] == max_int(src[j] as int, 0),
                        forall|j: int| i <= j < n ==> #[trigger] mass_vec@[j] == src[j],
                    decreases n - i,
                {
                    let m = mass_vec[i];
                    mass_vec.set(i, if m >= 0 { m } else { 0 });
                    i = i + 1;
                }
            },
            AutoSpawnMass::RandomRange(range_mass) => {
                range_mass.start = if range_mass.start >= 0 { range_mass.start } else { 0 };
                range_mass.end = if range_mass.end >= range_mass.start { range_mass.end } else { range_mass.start };
            },
        }
    }
}

/// The texture the automatic spawner gives new entities.
#[derive(Clone, Debug)]
pub enum AutoSpawnEntityTexture {
    CustomIndex(usize),
    Random(Vec<usize>),
}

/// The colour the automatic spawner gives new entities.
#[derive(Clone, Debug)]
pub enum AutoSpawnEntityColor {
    Custom(EntityColor),
    Random(Vec<EntityColor>),
}

/// `AutoSpawnEntityColor::validate` applied to `old_c`.
pub open spec fn auto_spawn_color_ok(c: AutoSpawnEntityColor, old_c: AutoSpawnEntityColor) -> bool {
    match old_c {
        AutoSpawnEntityColor::Random(v) => if v@.len() == 0 {
            c matches AutoSpawnEntityColor::Random(w) && w@.len() == 1 && is_default_color(w@[0])
        } else {
            c == old_c
        },
        _ => c == old_c,
    }
}

impl AutoSpawnEntityColor {
    /// An empty random palette gets the default colour; nothing else changes.
    pub fn validate(&mut self)
        ensures
            auto_spawn_color_ok(*final(self), *old(self)),
    {
        match self {
            AutoSpawnEntityColor::Random(vec) => {
                if vec.len() == 0 {
                    vec.push(EntityColor::default());
                }
            },
            _ => {},
        }
    }
}

/// An inclusive range of integers, `start..=end`.
#[derive(Clone, Copy, PartialEq, Eq, Structural, Debug)]
pub struct IntRangeInclusive<T> {
    pub start: T,
    pub end: T,
}

/// What the automatic spawner makes, and how many per update.
#[derive(Debug)]
pub struct AutoSpawnSettings {
    pub amount: usize,
    pub position: SpawnPosition,
    pub mass: AutoSpawnMass,
    pub color: AutoSpawnEntityColor,
    pub texture: AutoSpawnEntityTexture,
    pub timer: EntityTimer,
    pub characteristics: EntityCharacteristics,
}

/// How the local player throws food. The range of angles is a real range
/// kept beside it.
#[derive(Debug)]
pub struct ThrownFoodInfo {
    pub mass_minimum_to_throw: i64,
    pub mass_self_added: i64,
    pub mass_entity_thrown: i64,
    pub throw_ratio: i32,
    pub power: IntRangeInclusive<i32>,
    pub color: ThrownEntityColor,
    pub texture: ThrownEntityTexture,
    pub timer: EntityTimer,
    pub characteristics_entity_thrown: EntityCharacteristics,
}

/// The integer settings of a game. Colours, speeds and camera bounds are
/// real numbers kept beside them.
#[derive(Debug)]
pub struct Settings {
    pub local_player: usize,
    pub local_player_characteristics: EntityCharacteristics,
    pub local_player_food_settings: ThrownFoodInfo,
    pub max_split: usize,
    pub max_cells_spawn: usize,
    pub auto_spawn: AutoSpawnSettings,
    pub special: bool,
}

impl Settings {
    /// The settings can be validated without overflow.
    pub open spec fn validatable(&self, game: &Game) -> bool {
        &&& !(self.local_player > game.players@.len() && game.players@.len() == 0)
        &&& characteristics_validatable(self.local_player_characteristics)
        &&& characteristics_validatable(self.local_player_food_settings.characteristics_entity_thrown)
        &&& characteristics_validatable(self.auto_spawn.characteristics)
        &&& self.auto_spawn.position matches SpawnPosition::RandomRange(rx, ry) ==> rx.start < i32::MAX && ry.start < i32::MAX
        &&& game.map.wf()
    }

    /// A local player beyond the players becomes the last player; every
    /// part of the settings is validated.
    pub fn validate(&mut self, game: &Game)
        requires
            old(self).validatable(game),
        ensures
            final(self).local_player == if old(self).local_player > game.players@.len() {
                (game.players@.len() - 1) as usize
            } else {
                old(self).local_player
            },
            characteristics_ok(final(self).local_player_characteristics, old(self).local_player_characteristics),
            ({
                let f = final(self).local_player_food_settings;
                let o = old(self).local_player_food_settings;
                &&& f.mass_minimum_to_throw == o.mass_minimum_to_throw
                &&& f.mass_self_added == o.mass_self_added
                &&& f.mass_entity_thrown == o.mass_entity_thrown
                &&& f.throw_ratio == o.throw_ratio
                &&& f.power.start == max_int(o.power.start as int, 0)
                &&& f.power.end == max_int(o.power.end as int, max_int(o.power.start as int, 0))
                &&& color_ok(f.color, o.color)
                &&& f.texture == o.texture
                &&& f.timer == o.timer
                &&& characteristics_ok(f.characteristics_entity_thrown, o.characteristics_entity_thrown)
            }),
            ({
                let f = final(self).auto_spawn;
                let o = old(self).auto_spawn;
                &&& f.amount == o.amount
                &&& f.position == spawn_position_validated(o.position, game.map.max_spec())
                &&& auto_spawn_mass_ok(f.mass, o.mass)
                &&& auto_spawn_color_ok(f.color, o.color)
                &&& f.texture == o.texture
                &&& f.timer == o.timer
                &&& characteristics_ok(f.characteristics, o.characteristics)
            }),
            final(self).max_split == old(self).max_split,
            final(self).max_cells_spawn == old(self).max_cells_spawn,
            final(self).special == old(self).special,
    {
        if self.local_player > game.players.len() {
            self.local_player = game.players.len() - 1;
        }
        self.local_player_characteristics.validate();
        let start = if self.local_player_food_settings.power.start >= 0 { self.local_player_food_settings.power.start } else { 0 };
        let end = if self.local_player_food_settings.power.end >= start { self.local_player_food_settings.power.end } else { start };
        self.local_player_food_settings.power = IntRangeInclusive { start, end };
        self.local_player_food_settings.color.validate();
        self.local_player_food_settings.characteristics_entity_thrown.validate();
        self.auto_spawn.position.validate(game);
        self.auto_spawn.color.validate();
        self.auto_spawn.characteristics.validate();
        self.auto_spawn.mass.validate();
    }
}

/// The default settings: player 1 is the local player, a plain cell (see
/// `plain_characteristics`); it throws plain two-unit food above ten
/// units of mass; the spawner adds a hundred plain one-unit cells per
/// update in the uniform random palette, up to fifty thousand entities.
pub open spec fn default_settings(s: Settings) -> bool {
    &&& s.local_player == 1
    &&& s.local_player_food_settings.mass_minimum_to_throw == 10 * RATIO_MASS
    &&& s.local_player_food_settings.mass_self_added == -2 * RATIO_MASS
    &&& s.local_player_food_settings.mass_entity_thrown == 2 * RATIO_MASS
    &&& s.local_player_food_settings.throw_ratio == 1
    &&& s.local_player_food_settings.power == (IntRangeInclusive::<i32> { start: 500, end: 500 })
    &&& s.local_player_food_settings.color is Same
    &&& s.local_player_food_settings.texture is Same
    &&& s.local_player_food_settings.timer.is_idle()
    &&& s.max_split == 64
    &&& s.max_cells_spawn == 50_000
    &&& s.auto_spawn.amount == 100
    &&& s.auto_spawn.position == SpawnPosition::Random
    &&& s.auto_spawn.mass == AutoSpawnMass::Exact(RATIO_MASS)
    &&& s.auto_spawn.color matches AutoSpawnEntityColor::Random(v) && v@.len() == 6
        && forall|i: int| 0 <= i < 6 ==> has_colors(#[trigger] v@[i], random_uniform_center(i), random_uniform_center(i))
    &&& s.auto_spawn.texture matches AutoSpawnEntityTexture::Random(v) && v@ == seq![1usize, 2, 3, 4, 5, 6, 7, 8, 9, 10, 11, 12]
    &&& s.auto_spawn.timer.is_idle()
    &&& !s.special
    &&& plain_characteristics(s.local_player_characteristics, 1_000_000, 1_000_000_000_000, 10)
    &&& plain_characteristics(s.local_player_food_settings.characteristics_entity_thrown, 2 * RATIO_MASS, 200 * RATIO_MASS, 20)
    &&& plain_characteristics(s.auto_spawn.characteristics, RATIO_MASS as int, RATIO_MASS * 1_000_000, 10)
}

/// The characteristics of the default settings are left as they are by
/// their own validation: the local player's, the thrown food's and the
/// spawned cells'.
pub proof fn lemma_default_settings_validated(
    s: Settings,
    c1: EntityCharacteristics,
    c2: EntityCharacteristics,
    c3: EntityCharacteristics,
)
    requires
        default_settings(s),
        characteristics_ok(c1, s.local_player_characteristics),
        characteristics_ok(c2, s.local_player_food_settings.characteristics_entity_thrown),
        characteristics_ok(c3, s.auto_spawn.characteristics),
    ensures
        c1 == s.local_player_characteristics,
        c2 == s.local_player_food_settings.characteristics_entity_thrown,
        c3 == s.auto_spawn.characteristics,
{
    lemma_plain_characteristics_valid(s.local_player_characteristics, c1, 1_000_000, 1_000_000_000_000, 10);
    lemma_plain_characteristics_valid(
        s.local_player_food_settings.characteristics_entity_thrown,
        c2,
        2 * RATIO_MASS,
        200 * RATIO_MASS,
        20,
    );
    lemma_plain_characteristics_valid(s.auto_spawn.characteristics, c3, RATIO_MASS as int, RATIO_MASS * 1_000_000, 10);
}

impl Default for Settings {
    /// See `default_settings`.
    fn default() -> (s: Settings)
        ensures
            default_settings(s),
    {
        let mut thrown = EntityCharacteristics::default();
        thrown.mass_min = RATIO_MASS * 2;
        thrown.mass_max = RATIO_MASS * 200;
        thrown.inertia = 20;
        let mut spawned = EntityCharacteristics::default();
        spawned.mass_min = RATIO_MASS;
        spawned.mass_max = RATIO_MASS * 1_000_000;
        let mut textures: Vec<usize> = Vec::new();
        let mut t: usize = 1;
        while t <= 12
            invariant
                1 <= t <= 13,
                textures@.len() == t - 1,
                forall|i: int| 0 <= i < textures@.len() ==> #[trigger] textures@[i] == i + 1,
            decreases 13 - t,
        {
            textures.push(t);
            t = t + 1;
        }
        assert(textures@ =~= seq![1usize, 2, 3, 4, 5, 6, 7, 8, 9, 10, 11, 12]);
        Settings {
            local_player: 1,
            local_player_characteristics: EntityCharacteristics::default(),
            local_player_food_settings: ThrownFoodInfo {
                mass_minimum_to_throw: RATIO_MASS * 10,
                mass_self_added: -RATIO_MASS * 2,
                mass_entity_thrown: RATIO_MASS * 2,
                throw_ratio: 1,
                power: IntRangeInclusive { start: 500, end: 500 },
                color: ThrownEntityColor::Same,
                texture: ThrownEntityTexture::Same,
                timer: EntityTimer::default(),
                characteristics_entity_thrown: thrown,
            },
            max_split: 64,
            max_cells_spawn: 50_000,
            auto_spawn: AutoSpawnSettings {
                amount: 100,
                position: SpawnPosition::Random,
                mass: AutoSpawnMass::Exact(RATIO_MASS),
                color: AutoSpawnEntityColor::Random(default_color_random_uniform()),
                texture: AutoSpawnEntityTexture::Random(textures),
                timer: EntityTimer::default(),
                characteristics: spawned,
            },
            special: false,
        }
    }
}

/// Validating a validated mass setting changes nothing.
pub proof fn lemma_auto_spawn_mass_validate_idempotent(m0: AutoSpawnMass, m1: AutoSpawnMass, m2: AutoSpawnMass)
    requires
        auto_spawn_mass_ok(m1, m0),
        auto_spawn_mass_ok(m2, m1),
    ensures
        match (m1, m2) {
            (AutoSpawnMass::Random(v1), AutoSpawnMass::Random(v2)) => v2@ == v1@,
            _ => m2 == m1,
        },
{
    match (m1, m2) {
        (AutoSpawnMass::Random(v1), AutoSpawnMass::Random(v2)) => {
            assert(v2@ =~= v1@);
        },
        _ => {},
    }
}

/// Validating a validated spawn position changes nothing.
pub proof fn lemma_spawn_position_validate_idempotent(p: SpawnPosition, max: crate::geometry::Size2D)
    requires
        max.width >= 1,
        max.height >= 1,
    ensures
        spawn_position_validated(spawn_position_validated(p, max), max) == spawn_position_validated(p, max),
{
}

/// Validating a validated colour setting changes nothing.
pub proof fn lemma_auto_spawn_color_validate_idempotent(c0: AutoSpawnEntityColor, c1: AutoSpawnEntityColor, c2: AutoSpawnEntityColor)
    requires
        auto_spawn_color_ok(c1, c0),
        auto_spawn_color_ok(c2, c1),
    ensures
        c2 == c1,
{
}

/// A copy of a list of plain values.
fn copy_of<T: Copy>(v: &Vec<T>) -> (w: Vec<T>)
    ensures
        w@ == v@,
{
    let mut w: Vec<T> = Vec::new();
    let mut i: usize = 0;
    while i < v.len()
        invariant
            i <= v@.len(),
            w@ == v@.take(i as int),
        decreases v@.len() - i,
    {
        w.push(v[i]);
        i = i + 1;
        assert(w@ =~= v@.take(i as int));
    }
    assert(v@.take(v@.len() as int) =~= v@);
    w
}

/// The same choice of mass, lists compared by content.
pub open spec fn same_auto_spawn_mass(a: AutoSpawnMass, b: AutoSpawnMass) -> bool {
    match (a, b) {
        (AutoSpawnMass::Random(v), AutoSpawnMass::Random(w)) => v@ == w@,
        (AutoSpawnMass::Random(_), _) => false,
        (_, AutoSpawnMass::Random(_)) => false,
        _ => a == b,
    }
}

/// The same choice of texture, lists compared by content.
pub open spec fn same_auto_spawn_texture(a: AutoSpawnEntityTexture, b: AutoSpawnEntityTexture) -> bool {
    match (a, b) {
        (AutoSpawnEntityTexture::Random(v), AutoSpawnEntityTexture::Random(w)) => v@ == w@,
        (AutoSpawnEntityTexture::Random(_), _) => false,
        (_, AutoSpawnEntityTexture::Random(_)) => false,
        _ => a == b,
    }
}

/// The same choice of colour, palettes compared by content.
pub open spec fn same_auto_spawn_color(a: AutoSpawnEntityColor, b: AutoSpawnEntityColor) -> bool {
    match (a, b) {
        (AutoSpawnEntityColor::Random(v), AutoSpawnEntityColor::Random(w)) => v@ == w@,
        (AutoSpawnEntityColor::Random(_), _) => false,
        (_, AutoSpawnEntityColor::Random(_)) => false,
        _ => a == b,
    }
}

/// `a` and `b` agree on every field; lists are compared by their content.
pub open spec fn same_food(a: ThrownFoodInfo, b: ThrownFoodInfo) -> bool {
    &&& a.mass_minimum_to_throw == b.mass_minimum_to_throw
    &&& a.mass_self_added == b.mass_self_added
    &&& a.mass_entity_thrown == b.mass_entity_thrown
    &&& a.throw_ratio == b.throw_ratio
    &&& a.power == b.power
    &&& same_thrown_color(a.color, b.color)
    &&& same_thrown_texture(a.texture, b.texture)
    &&& a.timer == b.timer
    &&& same_characteristics(a.characteristics_entity_thrown, b.characteristics_entity_thrown)
}

/// `a` and `b` agree on every field; lists are compared by their content.
pub open spec fn same_auto_spawn(a: AutoSpawnSettings, b: AutoSpawnSettings) -> bool {
    &&& a.amount == b.amount
    &&& a.position == b.position
    &&& same_auto_spawn_mass(a.mass, b.mass)
    &&& same_auto_spawn_color(a.color, b.color)
    &&& same_auto_spawn_texture(a.texture, b.texture)
    &&& a.timer == b.timer
    &&& same_characteristics(a.characteristics, b.characteristics)
}

/// `a` and `b` agree on every field; lists are compared by their content.
pub open spec fn same_settings(a: Settings, b: Settings) -> bool {
    &&& a.local_player == b.local_player
    &&& same_characteristics(a.local_player_characteristics, b.local_player_characteristics)
    &&& same_food(a.local_player_food_settings, b.local_player_food_settings)
    &&& a.max_split == b.max_split
    &&& a.max_cells_spawn == b.max_cells_spawn
    &&& same_auto_spawn(a.auto_spawn, b.auto_spawn)
    &&& a.special == b.special
}

impl AutoSpawnMass {
    /// A copy of the choice of mass.
    pub fn duplicate(&self) -> (m: AutoSpawnMass)
        ensures
            same_auto_spawn_mass(m, *self),
    {
        match self {
            AutoSpawnMass::Exact(x) => AutoSpawnMass::Exact(*x),
            AutoSpawnMass::Random(v) => AutoSpawnMass::Random(copy_of(v)),
            AutoSpawnMass::RandomRange(r) => AutoSpawnMass::RandomRange(*r),
        }
    }
}

impl AutoSpawnEntityTexture {
    /// A copy of the choice of texture.
    pub fn duplicate(&self) -> (t: AutoSpawnEntityTexture)
        ensures
            same_auto_spawn_texture(t, *self),
    {
        match self {
            AutoSpawnEntityTexture::CustomIndex(i) => AutoSpawnEntityTexture::CustomIndex(*i),
            AutoSpawnEntityTexture::Random(v) => AutoSpawnEntityTexture::Random(copy_of(v)),
        }
    }
}

impl AutoSpawnEntityColor {
    /// A copy of the choice of colour.
    pub fn duplicate(&self) -> (c: AutoSpawnEntityColor)
        ensures
            same_auto_spawn_color(c, *self),
    {
        match self {
            AutoSpawnEntityColor::Custom(c) => AutoSpawnEntityColor::Custom(*c),
            AutoSpawnEntityColor::Random(v) => AutoSpawnEntityColor::Random(copy_of(v)),
        }
    }
}

impl ThrownFoodInfo {
    /// A copy of the food settings.
    pub fn duplicate(&self) -> (f: ThrownFoodInfo)
        ensures
            same_food(f, *self),
    {
        ThrownFoodInfo {
            mass_minimum_to_throw: self.mass_minimum_to_throw,
            mass_self_added: self.mass_self_added,
            mass_entity_thrown: self.mass_entity_thrown,
            throw_ratio: self.throw_ratio,
            power: self.power,
            color: self.color.duplicate(),
            texture: self.texture.duplicate(),
            timer: self.timer,
            characteristics_entity_thrown: self.characteristics_entity_thrown.duplicate(),
        }
    }
}

impl AutoSpawnSettings {
    /// A copy of the spawner's settings.
    pub fn duplicate(&self) -> (a: AutoSpawnSettings)
        ensures
            same_auto_spawn(a, *self),
    {
        AutoSpawnSettings {
            amount: self.amount,
            position: self.position,
            mass: self.mass.duplicate(),
            color: self.color.duplicate(),
            texture: self.texture.duplicate(),
            timer: self.timer,
            characteristics: self.characteristics.duplicate(),
        }
    }
}

impl Settings {
    /// A copy of the settings.
    pub fn duplicate(&self) -> (s: Settings)
        ensures
            same_settings(s, *self),
    {
        Settings {
            local_player: self.local_player,
            local_player_characteristics: self.local_player_characteristics.duplicate(),
            local_player_food_settings: self.local_player_food_settings.duplicate(),
            max_split: self.max_split,
            max_cells_spawn: self.max_cells_spawn,
            auto_spawn: self.auto_spawn.duplicate(),
            special: self.special,
        }
    }
}

} // verus!
