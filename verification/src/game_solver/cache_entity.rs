use vstd::prelude::*;
use crate::entity::{EntityAction, EntityColor, EntityInfo, EntityTimer, OnDeathEffect, same_characteristics, max_int, min_int};
use crate::entity::entities::{clamp_spec, EntityCore};
use crate::entity::flags::{EntityFlags, BOUNCE, MASS_CHANGED, MOVED};
use crate::geometry::{Point2D, Size2D, Vector2D};
use crate::game::{Game, lemma_same_structure_keeps_wf};
use crate::random::random_in;
use super::position_solver::{AxisSpeed, bounce, bounce_axis, not_bounce, not_bounce_axis};

verus! {

/// Applies the changes waiting in the buffers of an entity.
pub struct CacheEntitySolver;

/// The largest step, on each axis, that one change of position makes.
pub const MOVE_LIMIT: i32 = 1_000_000_000;

/// The running count of a timer, zero when stopped, plus `time`.
pub open spec fn timer_sum(t: Option<i32>, time: i32) -> int {
    (match t {
        Some(v) => v as int,
        None => 0int,
    }) + time
}

/// The count-down after adding `time`: it stops when the sum is not
/// positive.
pub open spec fn timer_added(t: Option<i32>, time: i32) -> Option<i32> {
    if timer_sum(t, time) > 0 {
        Some(timer_sum(t, time) as i32)
    } else {
        None
    }
}

/// The timers after one change.
pub open spec fn timer_step(t: EntityTimer, a: EntityAction) -> EntityTimer {
    match a {
        EntityAction::AddCollisionRatioTime(x) => EntityTimer { collision_ratio: timer_added(t.collision_ratio, x), ..t },
        EntityAction::AddCollisionTime(x) => EntityTimer { collision: timer_added(t.collision, x), ..t },
        EntityAction::AddInertiaTime(x) => EntityTimer { inertia: timer_added(t.inertia, x), ..t },
        EntityAction::AddMergeableTime(x) => EntityTimer { mergeable: timer_added(t.mergeable, x), ..t },
        EntityAction::AddLifetimeLeftTime(x) => EntityTimer {
            lifetime_left: Some((t.lifetime_left.unwrap() + x) as i32),
            ..t
        },
        _ => t,
    }
}

/// The change applies to the timers without overflow; a change of the
/// lifetime needs a running lifetime.
pub open spec fn timer_step_ok(t: EntityTimer, a: EntityAction) -> bool {
    match a {
        EntityAction::AddCollisionRatioTime(x) => i32::MIN <= timer_sum(t.collision_ratio, x) <= i32::MAX,
        EntityAction::AddCollisionTime(x) => i32::MIN <= timer_sum(t.collision, x) <= i32::MAX,
        EntityAction::AddInertiaTime(x) => i32::MIN <= timer_sum(t.inertia, x) <= i32::MAX,
        EntityAction::AddMergeableTime(x) => i32::MIN <= timer_sum(t.mergeable, x) <= i32::MAX,
        EntityAction::AddLifetimeLeftTime(x) => t.lifetime_left is Some && i32::MIN <= t.lifetime_left.unwrap() + x
            <= i32::MAX,
        _ => true,
    }
}

/// The timers after the changes, in order.
pub open spec fn timer_fold(t0: EntityTimer, acts: Seq<EntityAction>) -> EntityTimer
    decreases acts.len(),
{
    if acts.len() == 0 {
        t0
    } else {
        timer_step(timer_fold(t0, acts.drop_last()), acts.last())
    }
}

/// Every change applies to the timers as they are by then.
pub open spec fn timers_ok(t0: EntityTimer, acts: Seq<EntityAction>) -> bool
    decreases acts.len(),
{
    acts.len() == 0 || (timers_ok(t0, acts.drop_last()) && timer_step_ok(timer_fold(t0, acts.drop_last()), acts.last()))
}

/// A change of position that takes effect: both of its steps are non-zero.
pub open spec fn is_move(a: EntityAction) -> bool {
    a matches EntityAction::AddPosition(x, y) && x != 0 && y != 0
}

/// A coordinate after a step limited to `MOVE_LIMIT`, brought back onto
/// `[0, max]` by bouncing or by stopping at the edge.
pub open spec fn moved_axis(v: int, d: int, max: int, bounces: bool) -> (int, AxisSpeed) {
    let w = v + clamp_spec(d, -1_000_000_000, 1_000_000_000);
    if bounces {
        bounce_axis(w, max)
    } else {
        not_bounce_axis(w, max)
    }
}

/// The position after one change.
pub open spec fn position_step(p: Point2D, a: EntityAction, max: Size2D, bounces: bool) -> Point2D {
    match a {
        EntityAction::AddPosition(x, y) => if x != 0 && y != 0 {
            Point2D {
                x: moved_axis(p.x as int, x as int, max.width as int, bounces).0 as i32,
                y: moved_axis(p.y as int, y as int, max.height as int, bounces).0 as i32,
            }
        } else {
            p
        },
        _ => p,
    }
}

/// The step of a move stays within `i32` before it is brought back.
pub open spec fn position_step_ok(p: Point2D, a: EntityAction) -> bool {
    match a {
        EntityAction::AddPosition(x, y) => (x != 0 && y != 0) ==> {
            &&& i32::MIN < p.x + clamp_spec(x as int, -1_000_000_000, 1_000_000_000) <= i32::MAX
            &&& i32::MIN < p.y + clamp_spec(y as int, -1_000_000_000, 1_000_000_000) <= i32::MAX
        },
        _ => true,
    }
}

/// The position after the changes, in order.
pub open spec fn position_fold(p0: Point2D, acts: Seq<EntityAction>, max: Size2D, bounces: bool) -> Point2D
    decreases acts.len(),
{
    if acts.len() == 0 {
        p0
    } else {
        position_step(position_fold(p0, acts.drop_last(), max, bounces), acts.last(), max, bounces)
    }
}

/// Every move stays within `i32` from where the entity is by then.
pub open spec fn moves_ok(p0: Point2D, acts: Seq<EntityAction>, max: Size2D, bounces: bool) -> bool
    decreases acts.len(),
{
    acts.len() == 0 || (moves_ok(p0, acts.drop_last(), max, bounces) && position_step_ok(
        position_fold(p0, acts.drop_last(), max, bounces),
        acts.last(),
    ))
}

/// What a change does to the speed along each axis from position `p`: one
/// effect for a move that takes effect, none otherwise.
pub open spec fn effect_step(p: Point2D, a: EntityAction, max: Size2D, bounces: bool) -> Seq<(AxisSpeed, AxisSpeed)> {
    match a {
        EntityAction::AddPosition(x, y) => if x != 0 && y != 0 {
            seq![(moved_axis(p.x as int, x as int, max.width as int, bounces).1, moved_axis(p.y as int, y as int, max.height as int, bounces).1)]
        } else {
            Seq::empty()
        },
        _ => Seq::empty(),
    }
}

/// What each move that takes effect does to the speed along each axis, in
/// order.
pub open spec fn speed_effects(p0: Point2D, acts: Seq<EntityAction>, max: Size2D, bounces: bool) -> Seq<(AxisSpeed, AxisSpeed)>
    decreases acts.len(),
{
    if acts.len() == 0 {
        Seq::empty()
    } else {
        speed_effects(p0, acts.drop_last(), max, bounces) + effect_step(
            position_fold(p0, acts.drop_last(), max, bounces),
            acts.last(),
            max,
            bounces,
        )
    }
}

/// The flags after one change: a move sets `MOVED` and a change of mass
/// sets `MASS_CHANGED`.
pub open spec fn flags_step(f: EntityFlags, a: EntityAction) -> EntityFlags {
    match a {
        EntityAction::AddPosition(x, y) => if x != 0 && y != 0 {
            EntityFlags { bits: f.bits | MOVED }
        } else {
            f
        },
        EntityAction::AddMass(_) => EntityFlags { bits: f.bits | MASS_CHANGED },
        _ => f,
    }
}

/// The flags after the changes.
pub open spec fn flags_fold(f0: EntityFlags, acts: Seq<EntityAction>) -> EntityFlags
    decreases acts.len(),
{
    if acts.len() == 0 {
        f0
    } else {
        flags_step(flags_fold(f0, acts.drop_last()), acts.last())
    }
}

/// The killer recorded after one change: the first one to arrive stays.
pub open spec fn killed_step(k: Option<usize>, a: EntityAction) -> Option<usize> {
    match a {
        EntityAction::Killed(killer) => if k is None {
            Some(killer)
        } else {
            k
        },
        _ => k,
    }
}

/// The killer recorded after the changes.
pub open spec fn killed_fold(k0: Option<usize>, acts: Seq<EntityAction>) -> Option<usize>
    decreases acts.len(),
{
    if acts.len() == 0 {
        k0
    } else {
        killed_step(killed_fold(k0, acts.drop_last()), acts.last())
    }
}

/// The colour after one change.
pub open spec fn color_step(c: EntityColor, a: EntityAction) -> EntityColor {
    match a {
        EntityAction::SetColor(x) => x,
        _ => c,
    }
}

/// The colour after the changes: the last one set.
pub open spec fn color_fold(c0: EntityColor, acts: Seq<EntityAction>) -> EntityColor
    decreases acts.len(),
{
    if acts.len() == 0 {
        c0
    } else {
        color_step(color_fold(c0, acts.drop_last()), acts.last())
    }
}

/// The sum of a sequence of masses.
pub open spec fn sum_of(s: Seq<i64>) -> int
    decreases s.len(),
{
    if s.len() == 0 {
        0
    } else {
        sum_of(s.drop_last()) + s.last()
    }
}

/// Half of `m`, rounded towards zero as `i64` division does.
pub open spec fn half(m: int) -> int {
    if m >= 0 {
        m / 2
    } else {
        -((-m) / 2)
    }
}

/// How many pieces a split into `count` may make when the player has
/// `owned` entities and may have at most `max_split`.
pub open spec fn split_tries(count: int, owned: int, max_split: int) -> int {
    if owned >= max_split {
        0
    } else {
        min_int(count, max_split - owned)
    }
}

/// Each of `draws`, in order, is at least `min` and below half of what an
/// entity of mass `m` weighs once the earlier ones are taken, and that half
/// exceeds `min`.
pub open spec fn draws_valid(m: int, min: int, draws: Seq<i64>) -> bool
    decreases draws.len(),
{
    draws.len() == 0 || {
        let before = m - sum_of(draws.drop_last());
        &&& draws_valid(m, min, draws.drop_last())
        &&& half(before) > min
        &&& min <= draws.last() < half(before)
    }
}

/// `draws` are the masses that a split with `tries` tries takes from an
/// entity of mass `m`: while a try is left and half the mass exceeds
/// `min`, a mass of at least `min` and below that half is taken.
pub open spec fn split_draws_ok(m: int, min: int, tries: int, draws: Seq<i64>) -> bool {
    &&& draws.len() <= tries
    &&& draws_valid(m, min, draws)
    &&& draws.len() < tries ==> half(m - sum_of(draws)) <= min
}

/// What the first buffer of an entity reads besides its own columns.
#[derive(Clone, Copy, Debug)]
pub struct FirstContext {
    pub mass_min: i64,
    pub mass_max: i64,
    pub max: Size2D,
    pub bounces: bool,
    pub owned: usize,
    pub max_split: usize,
}

/// The mass after adding `x`: raised to the minimum, lowered to the
/// maximum, and set to 1 when still negative.
pub open spec fn mass_added(m: int, x: int, min: int, max: int) -> int {
    let v = min_int(max_int(m + x, min), max);
    if v < 0 {
        1
    } else {
        v
    }
}

/// The mass after one change, a split taking the masses `t`.
pub open spec fn mass_step(m: int, a: EntityAction, cx: FirstContext, t: Seq<i64>) -> int {
    match a {
        EntityAction::AddMass(x) => mass_added(m, x as int, cx.mass_min as int, cx.mass_max as int),
        EntityAction::Split(_) => m - sum_of(t),
        _ => m,
    }
}

/// The mass after the changes, the splits taking the masses of `taken`,
/// one list per change.
pub open spec fn mass_fold(m0: i64, acts: Seq<EntityAction>, cx: FirstContext, taken: Seq<Seq<i64>>) -> int
    decreases acts.len(),
{
    if acts.len() == 0 {
        m0 as int
    } else {
        mass_step(mass_fold(m0, acts.drop_last(), cx, taken.drop_last()), acts.last(), cx, taken.last())
    }
}

/// A change from mass `m` takes the masses `t`: a split those of
/// `split_draws_ok`, any other change none.
pub open spec fn step_draws_ok(m: int, a: EntityAction, cx: FirstContext, t: Seq<i64>) -> bool {
    match a {
        EntityAction::Split(count) => split_draws_ok(
            m,
            cx.mass_min as int,
            split_tries(count as int, cx.owned as int, cx.max_split as int),
            t,
        ),
        _ => t.len() == 0,
    }
}

/// `taken` holds, for each change, the masses it took.
pub open spec fn draws_ok(m0: i64, acts: Seq<EntityAction>, cx: FirstContext, taken: Seq<Seq<i64>>) -> bool
    decreases acts.len(),
{
    &&& taken.len() == acts.len()
    &&& acts.len() > 0 ==> {
        &&& draws_ok(m0, acts.drop_last(), cx, taken.drop_last())
        &&& step_draws_ok(mass_fold(m0, acts.drop_last(), cx, taken.drop_last()), acts.last(), cx, taken.last())
    }
}

/// Some change adds mass or splits the entity.
pub open spec fn has_mass_change(acts: Seq<EntityAction>) -> bool {
    exists|i: int| 0 <= i < acts.len() && (#[trigger] acts[i] is AddMass || acts[i] is Split)
}

/// The masses stay within `i64` whatever the splits take: the bounds are
/// sound, the mass starts within them, and no addition can pass the
/// largest `i64` from the maximum.
pub open spec fn masses_ok(m0: i64, acts: Seq<EntityAction>, cx: FirstContext) -> bool {
    has_mass_change(acts) ==> {
        &&& 1 <= cx.mass_min <= cx.mass_max
        &&& 1 <= m0 <= cx.mass_max
        &&& forall|i: int| 0 <= i < acts.len() && (#[trigger] acts[i] is AddMass) ==> acts[i]->AddMass_0 <= i64::MAX
            - cx.mass_max
    }
}

/// What a split records of each piece: where the entity was, the mass
/// taken, the mass left after taking it and the entity's colour.
pub open spec fn split_pieces(p: Point2D, c: EntityColor, m: int, draws: Seq<i64>) -> Seq<(Point2D, i64, int, EntityColor)>
    decreases draws.len(),
{
    if draws.len() == 0 {
        Seq::empty()
    } else {
        split_pieces(p, c, m, draws.drop_last()).push((p, draws.last(), m - sum_of(draws), c))
    }
}

/// The pieces that one change makes: a split from position `p`, colour
/// `c` and mass `m` one per mass of `t`, any other change none.
pub open spec fn pieces_step(p: Point2D, c: EntityColor, m: int, a: EntityAction, t: Seq<i64>) -> Seq<(Point2D, i64, int, EntityColor)> {
    match a {
        EntityAction::Split(_) => split_pieces(p, c, m, t),
        _ => Seq::empty(),
    }
}

/// The pieces of all splits, in order.
pub open spec fn pieces_fold(
    p0: Point2D,
    c0: EntityColor,
    m0: i64,
    acts: Seq<EntityAction>,
    cx: FirstContext,
    taken: Seq<Seq<i64>>,
) -> Seq<(Point2D, i64, int, EntityColor)>
    decreases acts.len(),
{
    if acts.len() == 0 {
        Seq::empty()
    } else {
        pieces_fold(p0, c0, m0, acts.drop_last(), cx, taken.drop_last()) + pieces_step(
            position_fold(p0, acts.drop_last(), cx.max, cx.bounces),
            color_fold(c0, acts.drop_last()),
            mass_fold(m0, acts.drop_last(), cx, taken.drop_last()),
            acts.last(),
            taken.last(),
        )
    }
}

/// The changes that the first buffer may hold: none confirms a death.
pub open spec fn first_buffer_ok(acts: Seq<EntityAction>) -> bool {
    forall|i: int| 0 <= i < acts.len() ==> !(#[trigger] acts[i] is KilledConfirmed)
}

/// The timers that a piece of a split starts with.
pub open spec fn piece_timer() -> EntityTimer {
    EntityTimer { mergeable: Some(1_000), inertia: Some(20), collision: Some(1), collision_ratio: Some(50), lifetime_left: None }
}

/// The offset keeps any position of the map within `i32`.
pub open spec fn offset_fits(o: Vector2D, max: Size2D) -> bool {
    &&& i32::MIN <= o.x <= i32::MAX - max.width
    &&& i32::MIN <= o.y <= i32::MAX - max.height
}

/// A piece of a split: it belongs to the player of the entity, copies its
/// characteristics and texture, carries the mass taken and the colour of
/// the moment, and lies away from the entity's position by an offset that
/// the caller's function can give for the mass left.
pub open spec fn piece_made<F: Fn(i64) -> Vector2D>(
    info: EntityInfo,
    piece: (Point2D, i64, int, EntityColor),
    player: usize,
    texture: usize,
    ch: crate::entity::EntityCharacteristics,
    split_offset: F,
) -> bool {
    &&& info.player == player
    &&& same_characteristics(info.characteristics, ch)
    &&& info.timer == piece_timer()
    &&& info.texture == texture
    &&& info.color == piece.3
    &&& info.mass == piece.1
    &&& i32::MIN <= info.position.x - piece.0.x <= i32::MAX
    &&& i32::MIN <= info.position.y - piece.0.y <= i32::MAX
    &&& call_ensures(
        split_offset,
        (piece.2 as i64,),
        Vector2D { x: (info.position.x - piece.0.x) as i32, y: (info.position.y - piece.0.y) as i32 },
    )
}

/// What the first buffer of entity `i` of `g` reads besides its columns.
pub open spec fn first_context(g: Game, i: int) -> FirstContext {
    let c = g.entities.core@[i];
    FirstContext {
        mass_min: c.characteristics.mass_min,
        mass_max: c.characteristics.mass_max,
        max: g.map.max_spec(),
        bounces: g.entities.flags@[i].has(BOUNCE),
        owned: g.players@[c.player as int].entities.len(),
        max_split: g.settings.max_split,
    }
}

/// Only the columns of entity `i`, the waiting lists of the game and the
/// buffers differ between `g` and `g0`; of the entity's core only its
/// killer and colour.
pub open spec fn same_but_entity(g: Game, g0: Game, i: int) -> bool {
    &&& g.settings == g0.settings
    &&& g.state == g0.state
    &&& g.map == g0.map
    &&& g.players == g0.players
    &&& g.id_generator == g0.id_generator
    &&& g.entities_characteristics == g0.entities_characteristics
    &&& g.entities.core@.len() == g0.entities.core@.len()
    &&& g.entities.main_ptrs == g0.entities.main_ptrs
    &&& g.entities.direction == g0.entities.direction
    &&& g.entities.lifetime == g0.entities.lifetime
    &&& g.entities.index_matrix_simple == g0.entities.index_matrix_simple
    &&& g.entities.special == g0.entities.special
    &&& g.entities.position@.len() == g0.entities.position@.len()
    &&& g.entities.mass@.len() == g0.entities.mass@.len()
    &&& g.entities.timer@.len() == g0.entities.timer@.len()
    &&& g.entities.flags@.len() == g0.entities.flags@.len()
    &&& g.entities.buffer@.len() == g0.entities.buffer@.len()
    &&& g.entities.buffer2@.len() == g0.entities.buffer2@.len()
    &&& forall|j: int| 0 <= j < g0.entities.core@.len() && j != i ==> {
        &&& #[trigger] g.entities.core@[j] == g0.entities.core@[j]
        &&& g.entities.position@[j] == g0.entities.position@[j]
        &&& g.entities.mass@[j] == g0.entities.mass@[j]
        &&& g.entities.timer@[j] == g0.entities.timer@[j]
        &&& g.entities.flags@[j] == g0.entities.flags@[j]
    }
    &&& g.entities.core@[i].player == g0.entities.core@[i].player
    &&& g.entities.core@[i].alive == g0.entities.core@[i].alive
    &&& g.entities.core@[i].characteristics == g0.entities.core@[i].characteristics
    &&& g.entities.core@[i].index == g0.entities.core@[i].index
}

/// Where the changes `done`, the first of the first buffer of entity `i`,
/// have taken the game `g` from `g1`, the splits having taken the masses
/// of `taken`: each column of the entity follows its fold, the killer
/// that arrived first is recorded and its handle waits to be killed once,
/// the pieces of the splits wait to be added, and `effects` lists what the
/// moves did to the speed.
pub open spec fn first_progress<F: Fn(i64) -> Vector2D>(
    g: Game,
    g1: Game,
    i: int,
    done: Seq<EntityAction>,
    taken: Seq<Seq<i64>>,
    effects: Seq<(AxisSpeed, AxisSpeed)>,
    split_offset: F,
) -> bool {
    let cx = first_context(g1, i);
    let e1 = g1.entities;
    let c1 = e1.core@[i];
    let p0 = e1.position@[i];
    let killed = killed_fold(c1.killed, done);
    let pieces = pieces_fold(p0, c1.color, e1.mass@[i], done, cx, taken);
    &&& same_but_entity(g, g1, i)
    &&& g.entities.position@[i] == position_fold(p0, done, cx.max, cx.bounces)
    &&& g.entities.timer@[i] == timer_fold(e1.timer@[i], done)
    &&& g.entities.flags@[i] == flags_fold(e1.flags@[i], done)
    &&& g.entities.core@[i].killed == killed
    &&& g.entities.core@[i].color == color_fold(c1.color, done)
    &&& draws_ok(e1.mass@[i], done, cx, taken)
    &&& g.entities.mass@[i] == mass_fold(e1.mass@[i], done, cx, taken)
    &&& effects == speed_effects(p0, done, cx.max, cx.bounces)
    &&& g.buffer_kill_entity@ == if c1.killed is None && killed is Some {
        g1.buffer_kill_entity@.push(c1.index.main_ptr)
    } else {
        g1.buffer_kill_entity@
    }
    &&& g.buffer_add_entity@.len() == g1.buffer_add_entity@.len() + pieces.len()
    &&& forall|k: int| 0 <= k < g1.buffer_add_entity@.len() ==> #[trigger] g.buffer_add_entity@[k] == g1.buffer_add_entity@[k]
    &&& forall|j: int| 0 <= j < pieces.len() ==> piece_made(
        #[trigger] g.buffer_add_entity@[g1.buffer_add_entity@.len() + j],
        pieces[j],
        c1.player,
        c1.index.texture,
        c1.characteristics,
        split_offset,
    )
}

/// The changes of the first buffer of entity `i` of `g0` can all be
/// applied: no confirmation of a death, timers and moves within `i32`,
/// masses within `i64` whatever the splits take.
pub open spec fn first_buffer_applicable(g0: Game, i: int) -> bool {
    let acts = g0.entities.buffer@[i]@;
    let cx = first_context(g0, i);
    &&& first_buffer_ok(acts)
    &&& timers_ok(g0.entities.timer@[i], acts)
    &&& moves_ok(g0.entities.position@[i], acts, cx.max, cx.bounces)
    &&& masses_ok(g0.entities.mass@[i], acts, cx)
}

/// A prefix of changes that apply to the timers applies too.
pub proof fn lemma_timers_ok_prefix(t0: EntityTimer, acts: Seq<EntityAction>, k: int)
    requires
        timers_ok(t0, acts),
        0 <= k <= acts.len(),
    ensures
        timers_ok(t0, acts.take(k)),
    decreases acts.len() - k,
{
    if k < acts.len() {
        assert(acts.take(k + 1).drop_last() =~= acts.take(k));
        lemma_timers_ok_prefix(t0, acts, k + 1);
    } else {
        assert(acts.take(k) =~= acts);
    }
}

/// A prefix of moves that stay within `i32` stays within `i32` too.
pub proof fn lemma_moves_ok_prefix(p0: Point2D, acts: Seq<EntityAction>, max: Size2D, bounces: bool, k: int)
    requires
        moves_ok(p0, acts, max, bounces),
        0 <= k <= acts.len(),
    ensures
        moves_ok(p0, acts.take(k), max, bounces),
    decreases acts.len() - k,
{
    if k < acts.len() {
        assert(acts.take(k + 1).drop_last() =~= acts.take(k));
        lemma_moves_ok_prefix(p0, acts, max, bounces, k + 1);
    } else {
        assert(acts.take(k) =~= acts);
    }
}

/// The first `i + 1` changes are the first `i` and then change `i`.
pub proof fn lemma_take_next<A>(s: Seq<A>, i: int)
    requires
        0 <= i < s.len(),
    ensures
        s.take(i + 1).drop_last() == s.take(i),
        s.take(i + 1).last() == s[i],
        s.take(i + 1).len() == i + 1,
{
    assert(s.take(i + 1).drop_last() =~= s.take(i));
}

/// The effects that an optional effect stands for.
pub open spec fn effect_seq(e: Option<(AxisSpeed, AxisSpeed)>) -> Seq<(AxisSpeed, AxisSpeed)> {
    match e {
        Some(x) => seq![x],
        None => Seq::empty(),
    }
}

/// Game `g` is `gb` after the change `a` to entity `i`, a split taking the
/// masses `t`; `eff` is what the change did to the speed.
pub open spec fn first_step_done<F: Fn(i64) -> Vector2D>(
    g: Game,
    gb: Game,
    i: int,
    a: EntityAction,
    t: Seq<i64>,
    eff: Seq<(AxisSpeed, AxisSpeed)>,
    cx: FirstContext,
    split_offset: F,
) -> bool {
    let eb = gb.entities;
    let cb = eb.core@[i];
    let pieces = pieces_step(eb.position@[i], cb.color, eb.mass@[i] as int, a, t);
    &&& same_but_entity(g, gb, i)
    &&& g.entities.position@[i] == position_step(eb.position@[i], a, cx.max, cx.bounces)
    &&& g.entities.timer@[i] == timer_step(eb.timer@[i], a)
    &&& g.entities.flags@[i] == flags_step(eb.flags@[i], a)
    &&& g.entities.core@[i].killed == killed_step(cb.killed, a)
    &&& g.entities.core@[i].color == color_step(cb.color, a)
    &&& step_draws_ok(eb.mass@[i] as int, a, cx, t)
    &&& g.entities.mass@[i] == mass_step(eb.mass@[i] as int, a, cx, t)
    &&& eff == effect_step(eb.position@[i], a, cx.max, cx.bounces)
    &&& g.buffer_kill_entity@ == if cb.killed is None && killed_step(cb.killed, a) is Some {
        gb.buffer_kill_entity@.push(cb.index.main_ptr)
    } else {
        gb.buffer_kill_entity@
    }
    &&& g.buffer_add_entity@.len() == gb.buffer_add_entity@.len() + pieces.len()
    &&& forall|k: int| 0 <= k < gb.buffer_add_entity@.len() ==> #[trigger] g.buffer_add_entity@[k] == gb.buffer_add_entity@[k]
    &&& forall|j: int| 0 <= j < pieces.len() ==> piece_made(
        #[trigger] g.buffer_add_entity@[gb.buffer_add_entity@.len() + j],
        pieces[j],
        cb.player,
        cb.index.texture,
        cb.characteristics,
        split_offset,
    )
}

/// Once a killer is recorded, one stays recorded.
pub proof fn lemma_killed_stays(k0: Option<usize>, acts: Seq<EntityAction>)
    requires
        k0 is Some,
    ensures
        killed_fold(k0, acts) is Some,
    decreases acts.len(),
{
    if acts.len() > 0 {
        lemma_killed_stays(k0, acts.drop_last());
    }
}

/// One more change carries the progress through the first buffer one step
/// further.
pub proof fn lemma_first_progress_step<F: Fn(i64) -> Vector2D>(
    g: Game,
    gb: Game,
    g0: Game,
    i: int,
    done: Seq<EntityAction>,
    taken: Seq<Seq<i64>>,
    eff_before: Seq<(AxisSpeed, AxisSpeed)>,
    a: EntityAction,
    t: Seq<i64>,
    eff: Seq<(AxisSpeed, AxisSpeed)>,
    split_offset: F,
)
    requires
        0 <= i < g0.entities.core@.len(),
        g0.entities.sizes_ok(),
        first_progress(gb, g0, i, done, taken, eff_before, split_offset),
        first_step_done(g, gb, i, a, t, eff, first_context(g0, i), split_offset),
    ensures
        first_progress(g, g0, i, done.push(a), taken.push(t), eff_before + eff, split_offset),
{
    let d2 = done.push(a);
    let t2 = taken.push(t);
    assert(d2.drop_last() =~= done);
    if g0.entities.core@[i].killed is Some {
        lemma_killed_stays(g0.entities.core@[i].killed, done);
    }
    assert(t2.drop_last() =~= taken);
    let cx = first_context(g0, i);
    let e0 = g0.entities;
    let c0 = e0.core@[i];
    let n0 = g0.buffer_add_entity@.len();
    let old_pieces = pieces_fold(e0.position@[i], c0.color, e0.mass@[i], done, cx, taken);
    let step_pieces = pieces_step(gb.entities.position@[i], gb.entities.core@[i].color, gb.entities.mass@[i] as int, a, t);
    let new_pieces = pieces_fold(e0.position@[i], c0.color, e0.mass@[i], d2, cx, t2);
    assert(new_pieces == old_pieces + step_pieces);
    let nb = gb.buffer_add_entity@.len();
    assert(nb == n0 + old_pieces.len());
    assert forall|k: int| 0 <= k < n0 implies #[trigger] g.buffer_add_entity@[k] == g0.buffer_add_entity@[k] by {
        assert(g.buffer_add_entity@[k] == gb.buffer_add_entity@[k]);
    }
    assert forall|j: int| 0 <= j < new_pieces.len() implies piece_made(
        #[trigger] g.buffer_add_entity@[n0 + j],
        new_pieces[j],
        c0.player,
        c0.index.texture,
        c0.characteristics,
        split_offset,
    ) by {
        if j < old_pieces.len() {
            assert(g.buffer_add_entity@[n0 + j] == gb.buffer_add_entity@[n0 + j]);
            assert(new_pieces[j] == old_pieces[j]);
        } else {
            let jj = j - old_pieces.len();
            assert(new_pieces[j] == step_pieces[jj]);
            assert(n0 + j == nb + jj);
        }
    }
    assert forall|j: int| 0 <= j < e0.core@.len() && j != i implies {
        &&& #[trigger] g.entities.core@[j] == e0.core@[j]
        &&& g.entities.position@[j] == e0.position@[j]
        &&& g.entities.mass@[j] == e0.mass@[j]
        &&& g.entities.timer@[j] == e0.timer@[j]
        &&& g.entities.flags@[j] == e0.flags@[j]
    } by {
        assert(gb.entities.core@[j] == e0.core@[j]);
        assert(g.entities.core@[j] == gb.entities.core@[j]);
    }
    assert(same_but_entity(g, g0, i));
}

impl CacheEntitySolver {
    /// A timer count-down after adding `time`; it stops when the sum is not
    /// positive.
    pub fn add_timer(t: Option<i32>, time: i32) -> (r: Option<i32>)
        requires
            i32::MIN <= timer_sum(t, time) <= i32::MAX,
        ensures
            r == timer_added(t, time),
    {
        let old_time = match t {
            Some(v) => v,
            None => 0,
        };
        let new_time = old_time + time;
        if new_time > 0 {
            Some(new_time)
        } else {
            None
        }
    }

    /// Applies a change of timers.
    pub fn apply_timer(timer: &mut EntityTimer, action: EntityAction)
        requires
            timer_step_ok(*old(timer), action),
        ensures
            *final(timer) == timer_step(*old(timer), action),
    {
        match action {
            EntityAction::AddCollisionRatioTime(x) => {
                timer.collision_ratio = Self::add_timer(timer.collision_ratio, x);
            },
            EntityAction::AddCollisionTime(x) => {
                timer.collision = Self::add_timer(timer.collision, x);
            },
            EntityAction::AddInertiaTime(x) => {
                timer.inertia = Self::add_timer(timer.inertia, x);
            },
            EntityAction::AddMergeableTime(x) => {
                timer.mergeable = Self::add_timer(timer.mergeable, x);
            },
            EntityAction::AddLifetimeLeftTime(x) => {
                let old_time = timer.lifetime_left.unwrap();
                timer.lifetime_left = Some(old_time + x);
            },
            _ => {},
        }
    }

    /// The mass after adding `x` within the bounds `[min, max]`, and 1 if
    /// still negative.
    pub fn add_mass(m: i64, x: i64, min: i64, max: i64) -> (r: i64)
        requires
            i64::MIN <= m + x <= i64::MAX,
        ensures
            r == mass_added(m as int, x as int, min as int, max as int),
    {
        let mut mass = m + x;
        mass = if mass >= min { mass } else { min };
        mass = if mass <= max { mass } else { max };
        if mass < 0 {
            mass = 1;
        }
        mass
    }

    /// Moves a position by a step limited to `MOVE_LIMIT` on each axis and
    /// brings it back onto the map, by bouncing or by stopping at the edge.
    pub fn move_position(position: &mut Point2D, x: i32, y: i32, max: Size2D, bounces: bool) -> (effect: (AxisSpeed, AxisSpeed))
        requires
            x != 0 && y != 0,
            position_step_ok(*old(position), EntityAction::AddPosition(x, y)),
            0 <= max.width,
            0 <= max.height,
        ensures
            *final(position) == position_step(*old(position), EntityAction::AddPosition(x, y), max, bounces),
            effect == (
                moved_axis(old(position).x as int, x as int, max.width as int, bounces).1,
                moved_axis(old(position).y as int, y as int, max.height as int, bounces).1,
            ),
    {
        let dx = if x <= MOVE_LIMIT { x } else { MOVE_LIMIT };
        let dx = if dx >= -MOVE_LIMIT { dx } else { -MOVE_LIMIT };
        let dy = if y <= MOVE_LIMIT { y } else { MOVE_LIMIT };
        let dy = if dy >= -MOVE_LIMIT { dy } else { -MOVE_LIMIT };
        position.x = position.x + dx;
        position.y = position.y + dy;
        if bounces {
            bounce(position, max)
        } else {
            not_bounce(position, max)
        }
    }
    /// Takes `mass_taken` from the entity for a new piece that waits to be
    /// added at the entity's position plus the offset that `split_offset`
    /// gives for the mass left.
    fn take_piece<F: Fn(i64) -> Vector2D>(game: &mut Game, entity_index: usize, mass_taken: i64, split_offset: &F)
        requires
            entity_index < old(game).entities.mass@.len(),
            entity_index < old(game).entities.core@.len(),
            entity_index < old(game).entities.position@.len(),
            i64::MIN <= old(game).entities.mass@[entity_index as int] - mass_taken <= i64::MAX,
            0 <= old(game).entities.position@[entity_index as int].x <= old(game).map.max_spec().width,
            0 <= old(game).entities.position@[entity_index as int].y <= old(game).map.max_spec().height,
            forall|m: i64| call_requires(*split_offset, (m,)),
            forall|m: i64, o: Vector2D| call_ensures(*split_offset, (m,), o) ==> offset_fits(o, old(game).map.max_spec()),
        ensures
            only_mass_and_adds(*final(game), *old(game), entity_index as int),
            final(game).entities.mass@[entity_index as int] == old(game).entities.mass@[entity_index as int] - mass_taken,
            final(game).buffer_add_entity@ == old(game).buffer_add_entity@.push(final(game).buffer_add_entity@.last()),
            piece_made(
                final(game).buffer_add_entity@.last(),
                (
                    old(game).entities.position@[entity_index as int],
                    mass_taken,
                    old(game).entities.mass@[entity_index as int] - mass_taken,
                    old(game).entities.core@[entity_index as int].color,
                ),
                old(game).entities.core@[entity_index as int].player,
                old(game).entities.core@[entity_index as int].index.texture,
                old(game).entities.core@[entity_index as int].characteristics,
                *split_offset,
            ),
    {
        let mass = game.entities.mass[entity_index];
        let new_mass = mass - mass_taken;
        game.entities.mass.set(entity_index, new_mass);
        let o = split_offset(new_mass);
        let position = game.entities.position[entity_index];
        let info = EntityInfo {
            player: game.entities.core[entity_index].player,
            position: Point2D { x: position.x + o.x, y: position.y + o.y },
            mass: mass_taken,
            color: game.entities.core[entity_index].color,
            texture: game.entities.core[entity_index].index.texture,
            timer: EntityTimer { mergeable: Some(1_000), inertia: Some(20), collision: Some(1), collision_ratio: Some(50), lifetime_left: None },
            characteristics: game.entities.core[entity_index].characteristics.duplicate(),
        };
        game.buffer_add_entity.push(info);
        assert(game.entities.mass@ == old(game).entities.mass@.update(entity_index as int, new_mass));
        let ghost m_after: int = mass as int - mass_taken as int;
        assert(m_after as i64 == new_mass);
        let ghost p = game.buffer_add_entity@.last().position;
        assert(o == Vector2D { x: (p.x - position.x) as i32, y: (p.y - position.y) as i32 });
        assert(call_ensures(*split_offset, (m_after as i64,), Vector2D { x: (p.x - position.x) as i32, y: (p.y - position.y) as i32 }));
    }

    /// Splits the entity: up to `split_tries` times, while half its mass
    /// exceeds its minimum, a mass drawn at random, at least the minimum
    /// and below that half, leaves it for a new piece that waits to be
    /// added. Gives the masses taken.
    #[verifier::rlimit(50)]
    fn split<F: Fn(i64) -> Vector2D>(game: &mut Game, entity_index: usize, count: usize, split_offset: &F) -> (taken: Ghost<Seq<i64>>)
        requires
            old(game).wf(),
            entity_index < old(game).entities.core@.len(),
            1 <= old(game).entities.core@[entity_index as int].characteristics.mass_min,
            1 <= old(game).entities.mass@[entity_index as int],
            forall|m: i64| call_requires(*split_offset, (m,)),
            forall|m: i64, o: Vector2D| call_ensures(*split_offset, (m,), o) ==> offset_fits(o, old(game).map.max_spec()),
        ensures
            final(game).wf(),
            only_mass_and_adds(*final(game), *old(game), entity_index as int),
            final(game).entities.mass@[entity_index as int] == old(game).entities.mass@[entity_index as int] - sum_of(taken@),
            1 <= final(game).entities.mass@[entity_index as int] <= old(game).entities.mass@[entity_index as int],
            split_draws_ok(
                old(game).entities.mass@[entity_index as int] as int,
                old(game).entities.core@[entity_index as int].characteristics.mass_min as int,
                split_tries(
                    count as int,
                    old(game).players@[old(game).entities.core@[entity_index as int].player as int].entities@.len() as int,
                    old(game).settings.max_split as int,
                ),
                taken@,
            ),
            final(game).buffer_add_entity@.len() == old(game).buffer_add_entity@.len() + taken@.len(),
            forall|k: int| 0 <= k < old(game).buffer_add_entity@.len() ==> #[trigger] final(game).buffer_add_entity@[k]
                == old(game).buffer_add_entity@[k],
            forall|j: int| 0 <= j < taken@.len() ==> piece_made(
                #[trigger] final(game).buffer_add_entity@[old(game).buffer_add_entity@.len() + j],
                split_pieces(
                    old(game).entities.position@[entity_index as int],
                    old(game).entities.core@[entity_index as int].color,
                    old(game).entities.mass@[entity_index as int] as int,
                    taken@,
                )[j],
                old(game).entities.core@[entity_index as int].player,
                old(game).entities.core@[entity_index as int].index.texture,
                old(game).entities.core@[entity_index as int].characteristics,
                *split_offset,
            ),
    {
        let ghost g0 = *game;
        let ghost idx = entity_index as int;
        let ghost n0 = game.buffer_add_entity@.len();
        let ghost m0 = game.entities.mass@[idx] as int;
        let ghost position = game.entities.position@[idx];
        let ghost color = game.entities.core@[idx].color;
        let player = game.entities.core[entity_index].player;
        let owned = game.players[player].entities.len();
        let max_split = game.settings.max_split;
        let tries = if owned >= max_split {
            0
        } else if count <= max_split - owned {
            count
        } else {
            max_split - owned
        };
        let min = game.entities.core[entity_index].characteristics.mass_min;
        let ghost mut taken: Seq<i64> = Seq::empty();
        let mut i: usize = 0;
        proof {
            assert(0 <= position.x <= g0.map.max_spec().width);
            assert(game.entities.mass@ =~= g0.entities.mass@.update(idx, game.entities.mass@[idx]));
        }
        while i < tries
            invariant
                only_mass_and_adds(*game, g0, idx),
                0 <= idx < g0.entities.core@.len(),
                g0.entities.sizes_ok(),
                entity_index == idx,
                game.entities.mass@[idx] == m0 - sum_of(taken),
                m0 == g0.entities.mass@[idx],
                1 <= min,
                min == g0.entities.core@[idx].characteristics.mass_min,
                position == g0.entities.position@[idx],
                color == g0.entities.core@[idx].color,
                0 <= position.x <= g0.map.max_spec().width,
                0 <= position.y <= g0.map.max_spec().height,
                i <= tries,
                1 <= m0 - sum_of(taken) <= m0,
                taken.len() <= i,
                draws_valid(m0, min as int, taken),
                taken.len() < i ==> half(m0 - sum_of(taken)) <= min,
                game.buffer_add_entity@.len() == n0 + taken.len(),
                n0 == g0.buffer_add_entity@.len(),
                forall|k: int| 0 <= k < n0 ==> #[trigger] game.buffer_add_entity@[k] == g0.buffer_add_entity@[k],
                forall|j: int| 0 <= j < taken.len() ==> piece_made(
                    #[trigger] game.buffer_add_entity@[n0 + j],
                    split_pieces(position, color, m0, taken)[j],
                    g0.entities.core@[idx].player,
                    g0.entities.core@[idx].index.texture,
                    g0.entities.core@[idx].characteristics,
                    *split_offset,
                ),
                forall|m: i64| call_requires(*split_offset, (m,)),
                forall|m: i64, o: Vector2D| call_ensures(*split_offset, (m,), o) ==> offset_fits(o, g0.map.max_spec()),
            decreases tries - i,
        {
            let mass = game.entities.mass[entity_index];
            let max_mass_taken = mass / 2;
            if max_mass_taken > min {
                let mass_taken = random_in(min, max_mass_taken - 1);
                let ghost before = *game;
                Self::take_piece(game, entity_index, mass_taken, split_offset);
                proof {
                    let old_taken = taken;
                    taken = taken.push(mass_taken);
                    assert(taken.drop_last() =~= old_taken);
                    assert(game.entities.mass@ =~= g0.entities.mass@.update(idx, game.entities.mass@[idx]));
                    lemma_pieces_push(
                        before.buffer_add_entity@,
                        game.buffer_add_entity@,
                        n0 as int,
                        position,
                        color,
                        m0,
                        old_taken,
                        mass_taken,
                        g0.entities.core@[idx].player,
                        g0.entities.core@[idx].index.texture,
                        g0.entities.core@[idx].characteristics,
                        *split_offset,
                    );
                    assert forall|k: int| 0 <= k < n0 implies #[trigger] game.buffer_add_entity@[k] == g0.buffer_add_entity@[k] by {
                        assert(game.buffer_add_entity@[k] == before.buffer_add_entity@[k]);
                    }
                }
            }
            i = i + 1;
        }
        proof {
            lemma_only_mass_and_adds_keeps_wf(*game, g0, idx);
        }
        Ghost(taken)
    }
    /// Applies one change of the first buffer to the entity at
    /// `entity_index`; `cx` holds what the change reads besides the
    /// entity's columns.
    fn apply_first_action<F: Fn(i64) -> Vector2D>(
        game: &mut Game,
        entity_index: usize,
        action: EntityAction,
        cx: FirstContext,
        split_offset: &F,
    ) -> (r: (Ghost<Seq<i64>>, Option<(AxisSpeed, AxisSpeed)>))
        requires
            old(game).wf(),
            entity_index < old(game).entities.core@.len(),
            !(action is KilledConfirmed),
            cx.mass_min == old(game).entities.core@[entity_index as int].characteristics.mass_min,
            cx.mass_max == old(game).entities.core@[entity_index as int].characteristics.mass_max,
            cx.max == old(game).map.max_spec(),
            cx.owned == old(game).players@[old(game).entities.core@[entity_index as int].player as int].entities.len(),
            cx.max_split == old(game).settings.max_split,
            timer_step_ok(old(game).entities.timer@[entity_index as int], action),
            position_step_ok(old(game).entities.position@[entity_index as int], action),
            action matches EntityAction::AddMass(x) ==> i64::MIN <= old(game).entities.mass@[entity_index as int] + x
                <= i64::MAX,
            action is Split ==> 1 <= cx.mass_min && 1 <= old(game).entities.mass@[entity_index as int],
            forall|m: i64| call_requires(*split_offset, (m,)),
            forall|m: i64, o: Vector2D| call_ensures(*split_offset, (m,), o) ==> offset_fits(o, old(game).map.max_spec()),
        ensures
            final(game).wf(),
            final(game).entities.buffer == old(game).entities.buffer,
            final(game).entities.buffer2 == old(game).entities.buffer2,
            first_step_done(*final(game), *old(game), entity_index as int, action, r.0@, effect_seq(r.1), cx, *split_offset),
            action is Split ==> 1 <= final(game).entities.mass@[entity_index as int] <= old(game).entities.mass@[entity_index as int],
    {
        let ghost g0 = *game;
        let ghost idx = entity_index as int;
        let max = game.map.max();
        proof {
            assert(0 <= game.entities.position@[idx].x);
        }
        match action {
            EntityAction::AddCollisionRatioTime(_) | EntityAction::AddCollisionTime(_) | EntityAction::AddInertiaTime(_)
            | EntityAction::AddMergeableTime(_) | EntityAction::AddLifetimeLeftTime(_) => {
                let mut t = game.entities.timer[entity_index];
                Self::apply_timer(&mut t, action);
                game.entities.timer.set(entity_index, t);
                proof {
                    lemma_same_structure_keeps_wf(*game, g0);
                }
                (Ghost(Seq::empty()), None)
            },
            EntityAction::AddPosition(x, y) => {
                if x != 0 && y != 0 {
                    let mut p = game.entities.position[entity_index];
                    let e = Self::move_position(&mut p, x, y, max, cx.bounces);
                    game.entities.position.set(entity_index, p);
                    let mut f = game.entities.flags[entity_index];
                    f.insert(MOVED);
                    game.entities.flags.set(entity_index, f);
                    proof {
                        lemma_same_structure_keeps_wf(*game, g0);
                    }
                    (Ghost(Seq::empty()), Some(e))
                } else {
                    (Ghost(Seq::empty()), None)
                }
            },
            EntityAction::AddMass(x) => {
                let m = game.entities.mass[entity_index];
                let nm = Self::add_mass(m, x, cx.mass_min, cx.mass_max);
                game.entities.mass.set(entity_index, nm);
                let mut f = game.entities.flags[entity_index];
                f.insert(MASS_CHANGED);
                game.entities.flags.set(entity_index, f);
                proof {
                    lemma_same_structure_keeps_wf(*game, g0);
                }
                (Ghost(Seq::empty()), None)
            },
            EntityAction::Killed(k) => {
                if game.entities.core[entity_index].killed.is_none() {
                    let handle = game.entities.core[entity_index].index.main_ptr;
                    game.entities.core[entity_index].killed = Some(k);
                    game.buffer_kill_entity.push(handle);
                }
                proof {
                    lemma_same_structure_keeps_wf(*game, g0);
                }
                (Ghost(Seq::empty()), None)
            },
            EntityAction::SetColor(c) => {
                game.entities.core[entity_index].color = c;
                proof {
                    lemma_same_structure_keeps_wf(*game, g0);
                }
                (Ghost(Seq::empty()), None)
            },
            EntityAction::Split(count) => {
                let t = Self::split(game, entity_index, count, split_offset);
                proof {
                    lemma_split_pieces_len(g0.entities.position@[idx], g0.entities.core@[idx].color, g0.entities.mass@[idx] as int, t@);
                }
                (t, None)
            },
            EntityAction::KilledConfirmed(_) => {
                (Ghost(Seq::empty()), None)
            },
        }
    }

    /// Applies, in order, the changes waiting in the first buffer of the
    /// entity at `entity_index`, and empties it: timers count, moves shift
    /// the position and bring it back onto the map, masses are added within
    /// the entity's bounds, the first killer to arrive is recorded and the
    /// entity's handle waits to be killed, colours are set, and splits send
    /// pieces to wait to be added, `split_offset` giving where each piece
    /// lies from the entity for the mass that it leaves. A recorded killer
    /// is then confirmed in the second buffer. Gives what each move did to
    /// the speed, in order.
    pub fn solve_first<F: Fn(i64) -> Vector2D>(game: &mut Game, entity_index: usize, split_offset: &F) -> (effects: Vec<(AxisSpeed, AxisSpeed)>)
        requires
            old(game).wf(),
            entity_index < old(game).entities.core@.len(),
            first_buffer_applicable(*old(game), entity_index as int),
            forall|m: i64| call_requires(*split_offset, (m,)),
            forall|m: i64, o: Vector2D| call_ensures(*split_offset, (m,), o) ==> offset_fits(o, old(game).map.max_spec()),
        ensures
            final(game).wf(),
            final(game).entities.buffer@.len() == old(game).entities.buffer@.len(),
            final(game).entities.buffer@[entity_index as int]@.len() == 0,
            forall|j: int| 0 <= j < old(game).entities.buffer@.len() && j != entity_index ==> #[trigger] final(game).entities.buffer@[j]
                == old(game).entities.buffer@[j],
            final(game).entities.buffer2@.len() == old(game).entities.buffer2@.len(),
            forall|j: int| 0 <= j < old(game).entities.buffer2@.len() && j != entity_index ==> #[trigger] final(game).entities.buffer2@[j]
                == old(game).entities.buffer2@[j],
            final(game).entities.buffer2@[entity_index as int]@ == match final(game).entities.core@[entity_index as int].killed {
                Some(k) => old(game).entities.buffer2@[entity_index as int]@.push(EntityAction::KilledConfirmed(k)),
                None => old(game).entities.buffer2@[entity_index as int]@,
            },
            exists|taken: Seq<Seq<i64>>| #[trigger] first_progress(
                *final(game),
                *old(game),
                entity_index as int,
                old(game).entities.buffer@[entity_index as int]@,
                taken,
                effects@,
                *split_offset,
            ),
    {
        let ghost g0 = *game;
        let ghost idx = entity_index as int;
        let ghost cxs = first_context(g0, idx);
        let cx = FirstContext {
            mass_min: game.entities.core[entity_index].characteristics.mass_min,
            mass_max: game.entities.core[entity_index].characteristics.mass_max,
            max: game.map.max(),
            bounces: game.entities.flags[entity_index].contains(BOUNCE),
            owned: game.players[game.entities.core[entity_index].player].entities.len(),
            max_split: game.settings.max_split,
        };
        assert(cx == cxs);
        let actions = game.entities.receive_buffer(entity_index);
        let ghost g1 = *game;
        let ghost acts = actions@;
        let mut effects: Vec<(AxisSpeed, AxisSpeed)> = Vec::new();
        let ghost mut taken: Seq<Seq<i64>> = Seq::empty();
        proof {
            assert(acts.take(0) =~= Seq::<EntityAction>::empty());
            assert(effects@ =~= Seq::<(AxisSpeed, AxisSpeed)>::empty());
        }
        let mut i: usize = 0;
        while i < actions.len()
            invariant
                g0.wf(),
                0 <= idx < g0.entities.core@.len(),
                entity_index == idx,
                acts == actions@,
                acts == g0.entities.buffer@[idx]@,
                cx == first_context(g0, idx),
                first_buffer_applicable(g0, idx),
                i <= acts.len(),
                taken.len() == i,
                game.wf(),
                has_mass_change(acts) ==> 1 <= game.entities.mass@[idx] <= cx.mass_max,
                first_progress(*game, g0, idx, acts.take(i as int), taken, effects@, *split_offset),
                game.entities.buffer == g1.entities.buffer,
                game.entities.buffer2 == g1.entities.buffer2,
                g1.entities.buffer2 == g0.entities.buffer2,
                g1.entities.buffer@[idx]@.len() == 0,
                g1.entities.buffer@.len() == g0.entities.buffer@.len(),
                forall|j: int| 0 <= j < g0.entities.buffer@.len() && j != idx ==> #[trigger] g1.entities.buffer@[j]
                    == g0.entities.buffer@[j],
                forall|m: i64| call_requires(*split_offset, (m,)),
                forall|m: i64, o: Vector2D| call_ensures(*split_offset, (m,), o) ==> offset_fits(o, g0.map.max_spec()),
            decreases acts.len() - i,
        {
            let a = actions[i];
            let ghost before = *game;
            let ghost eb = effects@;
            proof {
                lemma_take_next(acts, i as int);
                lemma_timers_ok_prefix(g0.entities.timer@[idx], acts, i as int + 1);
                lemma_moves_ok_prefix(g0.entities.position@[idx], acts, cx.max, cx.bounces, i as int + 1);
                assert(!(acts[i as int] is KilledConfirmed));
                assert(same_but_entity(*game, g0, idx));
                assert(game.players == g0.players);
                assert(game.entities.core@[idx].player == g0.entities.core@[idx].player);
                assert(game.entities.core@[idx].characteristics == g0.entities.core@[idx].characteristics);
                if a is AddMass || a is Split {
                    assert(has_mass_change(acts));
                    assert(acts[i as int] == a);
                }
            }
            let (t, e) = Self::apply_first_action(game, entity_index, a, cx, split_offset);
            match e {
                Some(x) => {
                    effects.push(x);
                },
                None => {},
            }
            proof {
                assert(effects@ =~= eb + effect_seq(e));
                lemma_first_progress_step(*game, before, g0, idx, acts.take(i as int), taken, eb, a, t@, effect_seq(e), *split_offset);
                taken = taken.push(t@);
                assert(acts.take(i as int + 1) =~= acts.take(i as int).push(a));
            }
            i = i + 1;
        }
        let ghost gl = *game;
        if let Some(k) = game.entities.core[entity_index].killed {
            game.entities.send_buffer2(entity_index, EntityAction::KilledConfirmed(k));
        }
        proof {
            lemma_only_buffers_keeps_wf(*game, gl);
            assert(acts.take(acts.len() as int) =~= acts);
            assert(first_progress(gl, g0, idx, acts, taken, effects@, *split_offset));
            assert(first_progress(*game, g0, idx, acts, taken, effects@, *split_offset));
        }
        effects
    }
}

/// Only the mass of entity `i` and the entities waiting to be added differ
/// between `g` and `g0`.
pub open spec fn only_mass_and_adds(g: Game, g0: Game, i: int) -> bool {
    &&& g.settings == g0.settings
    &&& g.state == g0.state
    &&& g.map == g0.map
    &&& g.players == g0.players
    &&& g.id_generator == g0.id_generator
    &&& g.entities_characteristics == g0.entities_characteristics
    &&& g.buffer_kill_entity == g0.buffer_kill_entity
    &&& g.entities.core == g0.entities.core
    &&& g.entities.position == g0.entities.position
    &&& g.entities.direction == g0.entities.direction
    &&& g.entities.timer == g0.entities.timer
    &&& g.entities.flags == g0.entities.flags
    &&& g.entities.lifetime == g0.entities.lifetime
    &&& g.entities.index_matrix_simple == g0.entities.index_matrix_simple
    &&& g.entities.special == g0.entities.special
    &&& g.entities.buffer == g0.entities.buffer
    &&& g.entities.buffer2 == g0.entities.buffer2
    &&& g.entities.main_ptrs == g0.entities.main_ptrs
    &&& g.entities.mass@ == g0.entities.mass@.update(i, g.entities.mass@[i])
}

/// The mass of an entity and the waiting additions play no part in the
/// well-formedness of a game.
#[verifier::rlimit(40)]
pub proof fn lemma_only_mass_and_adds_keeps_wf(g: Game, g0: Game, i: int)
    requires
        g0.wf(),
        0 <= i < g0.entities.mass@.len(),
        only_mass_and_adds(g, g0, i),
    ensures
        g.wf(),
{
    assert(g.entities.core@ == g0.entities.core@);
    assert(g.entities.main_ptrs@ == g0.entities.main_ptrs@);
    assert(g.entities.sizes_ok());
    assert(g0.entities.wf());
    assert(g0.entities.pointers_ok());
    assert forall|k: int| 0 <= k < g.entities.core@.len() implies {
        &&& #[trigger] g.entities.core@[k].index.main == k
        &&& g.entities.core@[k].index.main_ptr < g.entities.main_ptrs@.len()
        &&& g.entities.main_ptrs@[g.entities.core@[k].index.main_ptr as int] == Some(k as usize)
    } by {
        assert(g.entities.core@[k] == g0.entities.core@[k]);
        assert(g0.entities.core@[k].index.main == k);
        assert(g0.entities.main_ptrs@[g0.entities.core@[k].index.main_ptr as int] == Some(k as usize));
    }
    assert forall|h: int| 0 <= h < g.entities.main_ptrs@.len() && (#[trigger] g.entities.main_ptrs@[h]) is Some implies {
        &&& g.entities.main_ptrs@[h].unwrap() < g.entities.core@.len()
        &&& g.entities.core@[g.entities.main_ptrs@[h].unwrap() as int].index.main_ptr == h
    } by {
        assert(g.entities.main_ptrs@[h] == g0.entities.main_ptrs@[h]);
    }
    assert(g.entities.pointers_ok());
    assert(crate::game::positions_ok(g.entities, g.map));
}

/// A split that takes `draws` records one piece per mass taken.
pub proof fn lemma_split_pieces_len(p: Point2D, c: EntityColor, m: int, draws: Seq<i64>)
    ensures
        split_pieces(p, c, m, draws).len() == draws.len(),
    decreases draws.len(),
{
    if draws.len() > 0 {
        lemma_split_pieces_len(p, c, m, draws.drop_last());
    }
}

/// A new piece made from the mass `d` extends the pieces made so far.
pub proof fn lemma_pieces_push<F: Fn(i64) -> Vector2D>(
    before: Seq<EntityInfo>,
    after: Seq<EntityInfo>,
    n0: int,
    position: Point2D,
    color: EntityColor,
    m0: int,
    taken: Seq<i64>,
    d: i64,
    player: usize,
    texture: usize,
    ch: crate::entity::EntityCharacteristics,
    split_offset: F,
)
    requires
        0 <= n0,
        before.len() == n0 + taken.len(),
        after.len() == before.len() + 1,
        forall|k: int| 0 <= k < before.len() ==> #[trigger] after[k] == before[k],
        forall|j: int| 0 <= j < taken.len() ==> piece_made(
            #[trigger] before[n0 + j],
            split_pieces(position, color, m0, taken)[j],
            player,
            texture,
            ch,
            split_offset,
        ),
        piece_made(after.last(), (position, d, m0 - sum_of(taken) - d, color), player, texture, ch, split_offset),
    ensures
        forall|j: int| 0 <= j < taken.len() + 1 ==> piece_made(
            #[trigger] after[n0 + j],
            split_pieces(position, color, m0, taken.push(d))[j],
            player,
            texture,
            ch,
            split_offset,
        ),
{
    let t = taken.push(d);
    assert(t.drop_last() =~= taken);
    lemma_split_pieces_len(position, color, m0, taken);
    assert forall|j: int| 0 <= j < taken.len() + 1 implies piece_made(
        #[trigger] after[n0 + j],
        split_pieces(position, color, m0, t)[j],
        player,
        texture,
        ch,
        split_offset,
    ) by {
        assert(split_pieces(position, color, m0, t) == split_pieces(position, color, m0, taken).push(
            (position, d, m0 - sum_of(t), color),
        ));
        if j < taken.len() {
            assert(after[n0 + j] == before[n0 + j]);
        }
    }
}

/// The entity at the end of the chain of killers that starts at `k`,
/// following at most `fuel` links: one that has no killer or killed itself.
/// `None` when the chain leaves the entities or does not end in time.
pub open spec fn chain_end(core: Seq<EntityCore>, k: int, fuel: nat) -> Option<int>
    decreases fuel,
{
    if fuel == 0 || k < 0 || k >= core.len() {
        None
    } else {
        match core[k].killed {
            Some(next) => if next == k {
                Some(k)
            } else {
                chain_end(core, next as int, (fuel - 1) as nat)
            },
            None => Some(k),
        }
    }
}

/// What confirming the death of entity `i`, of mass `mass`, killed by
/// `killer`, sends, as (receiver, change) in order, and whether it stops the
/// confirmations: the mass goes to the end of the chain of killers; an
/// entity that splits its killer on death sends the split, or stops when
/// that killer cannot split on a kill. An entity that killed itself sends
/// nothing.
pub open spec fn confirm_messages(core: Seq<EntityCore>, i: int, mass: i64, killer: usize) -> (Seq<(usize, EntityAction)>, bool) {
    if killer == i {
        (Seq::empty(), false)
    } else {
        let e = chain_end(core, killer as int, core.len()).unwrap();
        let add = Seq::empty().push((e as usize, EntityAction::AddMass(mass)));
        match core[i].characteristics.on_death {
            Some(OnDeathEffect::Split(count)) => if core[e].characteristics.can_split_on_kill {
                (add.push((e as usize, EntityAction::Split(count))), false)
            } else {
                (add, true)
            },
            None => (add, false),
        }
    }
}

/// What the confirmations `acts` of the second buffer of entity `i` send,
/// and whether they stopped.
pub open spec fn second_messages(core: Seq<EntityCore>, i: int, mass: i64, acts: Seq<EntityAction>) -> (Seq<(usize, EntityAction)>, bool)
    decreases acts.len(),
{
    if acts.len() == 0 {
        (Seq::empty(), false)
    } else {
        let before = second_messages(core, i, mass, acts.drop_last());
        if before.1 {
            before
        } else {
            match acts.last() {
                EntityAction::KilledConfirmed(killer) => {
                    let now = confirm_messages(core, i, mass, killer);
                    (before.0 + now.0, now.1)
                },
                _ => (before.0, false),
            }
        }
    }
}

/// The changes that `msgs` send to entity `j`, in order.
pub open spec fn sent_to(msgs: Seq<(usize, EntityAction)>, j: int) -> Seq<EntityAction>
    decreases msgs.len(),
{
    if msgs.len() == 0 {
        Seq::empty()
    } else if msgs.last().0 == j {
        sent_to(msgs.drop_last(), j).push(msgs.last().1)
    } else {
        sent_to(msgs.drop_last(), j)
    }
}

/// The second buffer of entity `i` holds only confirmations of its death,
/// and every chain of killers that they start ends among the entities.
pub open spec fn second_buffer_ok(core: Seq<EntityCore>, i: int, acts: Seq<EntityAction>) -> bool {
    forall|k: int| 0 <= k < acts.len() ==> {
        &&& #[trigger] acts[k] is KilledConfirmed
        &&& acts[k]->KilledConfirmed_0 != i ==> chain_end(core, acts[k]->KilledConfirmed_0 as int, core.len()) is Some
    }
}

/// The end of a chain is an entity.
pub proof fn lemma_chain_end_in(core: Seq<EntityCore>, k: int, fuel: nat)
    requires
        chain_end(core, k, fuel) is Some,
    ensures
        0 <= chain_end(core, k, fuel).unwrap() < core.len(),
    decreases fuel,
{
    if fuel > 0 && 0 <= k < core.len() {
        match core[k].killed {
            Some(next) => if next != k {
                lemma_chain_end_in(core, next as int, (fuel - 1) as nat);
            },
            None => {},
        }
    }
}

/// Once the confirmations stop, the later ones send nothing more.
pub proof fn lemma_stopped_stays(core: Seq<EntityCore>, i: int, mass: i64, acts: Seq<EntityAction>, k: int)
    requires
        0 <= k <= acts.len(),
        second_messages(core, i, mass, acts.take(k)).1,
    ensures
        second_messages(core, i, mass, acts) == second_messages(core, i, mass, acts.take(k)),
    decreases acts.len() - k,
{
    if k < acts.len() {
        assert(acts.take(k + 1).drop_last() =~= acts.take(k));
        lemma_stopped_stays(core, i, mass, acts, k + 1);
    } else {
        assert(acts.take(k) =~= acts);
    }
}

/// Only the ages of the entities changed, and not their number: the game
/// stays well formed.
pub proof fn lemma_only_buffers_keeps_wf_lifetime(g: Game, g0: Game)
    requires
        g0.wf(),
        g == (Game {
            entities: crate::entity::entities::Entities { lifetime: g.entities.lifetime, ..g0.entities },
            ..g0
        }),
        g.entities.lifetime@.len() == g0.entities.lifetime@.len(),
    ensures
        g.wf(),
{
    lemma_same_structure_keeps_wf(g, g0);
}

/// Only the timers of the entities changed, and not their number: the game
/// stays well formed.
pub proof fn lemma_same_timers_keep_wf(g: Game, g0: Game)
    requires
        g0.wf(),
        g == (Game {
            entities: crate::entity::entities::Entities { timer: g.entities.timer, ..g0.entities },
            ..g0
        }),
        g.entities.timer@.len() == g0.entities.timer@.len(),
    ensures
        g.wf(),
{
    lemma_same_structure_keeps_wf(g, g0);
}

/// Only the masses of the entities changed, and not their number: the game
/// stays well formed.
pub proof fn lemma_only_mass_changed_keeps_wf(g: Game, g0: Game)
    requires
        g0.wf(),
        g == (Game {
            entities: crate::entity::entities::Entities { mass: g.entities.mass, ..g0.entities },
            ..g0
        }),
        g.entities.mass@.len() == g0.entities.mass@.len(),
    ensures
        g.wf(),
{
    lemma_same_structure_keeps_wf(g, g0);
}

/// Only the buffers of the entities changed, and not their number: the game
/// stays well formed.
pub proof fn lemma_only_buffers_keeps_wf(g: Game, g0: Game)
    requires
        g0.wf(),
        g == (Game {
            entities: crate::entity::entities::Entities { buffer: g.entities.buffer, buffer2: g.entities.buffer2, ..g0.entities },
            ..g0
        }),
        g.entities.buffer@.len() == g0.entities.buffer@.len(),
        g.entities.buffer2@.len() == g0.entities.buffer2@.len(),
    ensures
        g.wf(),
{
    lemma_same_structure_keeps_wf(g, g0);
}

impl CacheEntitySolver {
    /// The entity at the end of the chain of killers that starts at
    /// `killer`.
    fn chain_end_of(game: &Game, killer: usize) -> (e: usize)
        requires
            chain_end(game.entities.core@, killer as int, game.entities.core@.len()) is Some,
        ensures
            e == chain_end(game.entities.core@, killer as int, game.entities.core@.len()).unwrap(),
    {
        let n = game.entities.core.len();
        let mut k = killer;
        let mut fuel = n;
        loop
            invariant
                n == game.entities.core@.len(),
                chain_end(game.entities.core@, k as int, fuel as nat) == chain_end(game.entities.core@, killer as int, n as nat),
                chain_end(game.entities.core@, k as int, fuel as nat) is Some,
            decreases fuel,
        {
            match game.entities.core[k].killed {
                Some(next) => {
                    if next == k {
                        return k;
                    }
                    k = next;
                    fuel = fuel - 1;
                },
                None => {
                    return k;
                },
            }
        }
    }

    /// Applies the confirmations of death waiting in the second buffer of
    /// the entity at `entity_index`, and empties it. For each, unless the
    /// entity killed itself, its mass goes to the end of the chain of
    /// killers; when it splits its killer on death, that killer is told to
    /// split, and when that killer cannot split on a kill the confirmations
    /// stop there.
    pub fn solve_second(game: &mut Game, entity_index: usize)
        requires
            old(game).wf(),
            entity_index < old(game).entities.core@.len(),
            second_buffer_ok(old(game).entities.core@, entity_index as int, old(game).entities.buffer2@[entity_index as int]@),
        ensures
            final(game).wf(),
            *final(game) == (Game {
                entities: crate::entity::entities::Entities {
                    buffer: final(game).entities.buffer,
                    buffer2: final(game).entities.buffer2,
                    ..old(game).entities
                },
                ..*old(game)
            }),
            final(game).entities.buffer2@.len() == old(game).entities.buffer2@.len(),
            final(game).entities.buffer2@[entity_index as int]@.len() == 0,
            forall|j: int| 0 <= j < old(game).entities.buffer2@.len() && j != entity_index ==> #[trigger] final(game).entities.buffer2@[j]
                == old(game).entities.buffer2@[j],
            final(game).entities.buffer@.len() == old(game).entities.buffer@.len(),
            forall|j: int| 0 <= j < old(game).entities.buffer@.len() ==> #[trigger] final(game).entities.buffer@[j]@
                == old(game).entities.buffer@[j]@ + sent_to(
                second_messages(
                    old(game).entities.core@,
                    entity_index as int,
                    old(game).entities.mass@[entity_index as int],
                    old(game).entities.buffer2@[entity_index as int]@,
                ).0,
                j,
            ),
    {
        let ghost g0 = *game;
        let ghost idx = entity_index as int;
        let ghost core = g0.entities.core@;
        let mass = game.entities.mass[entity_index];
        let actions = game.entities.receive_buffer2(entity_index);
        let ghost g1 = *game;
        let ghost acts = actions@;
        let mut i: usize = 0;
        let mut stop = false;
        proof {
            assert(acts.take(0) =~= Seq::<EntityAction>::empty());
            assert forall|j: int| 0 <= j < g0.entities.buffer@.len() implies #[trigger] game.entities.buffer@[j]@
                == g0.entities.buffer@[j]@ + sent_to(second_messages(core, idx, mass, acts.take(0)).0, j) by {
                assert(game.entities.buffer@[j]@ =~= g0.entities.buffer@[j]@ + Seq::<EntityAction>::empty());
            }
        }
        while i < actions.len() && !stop
            invariant
                g0.wf(),
                0 <= idx < core.len(),
                entity_index == idx,
                core == g0.entities.core@,
                mass == g0.entities.mass@[idx],
                acts == actions@,
                acts == g0.entities.buffer2@[idx]@,
                second_buffer_ok(core, idx, acts),
                i <= acts.len(),
                stop == second_messages(core, idx, mass, acts.take(i as int)).1,
                *game == (Game {
                    entities: crate::entity::entities::Entities {
                        buffer: game.entities.buffer,
                        ..g1.entities
                    },
                    ..g1
                }),
                g1 == (Game {
                    entities: crate::entity::entities::Entities {
                        buffer2: g1.entities.buffer2,
                        ..g0.entities
                    },
                    ..g0
                }),
                g1.entities.buffer2@.len() == g0.entities.buffer2@.len(),
                g1.entities.buffer2@[idx]@.len() == 0,
                forall|j: int| 0 <= j < g0.entities.buffer2@.len() && j != idx ==> #[trigger] g1.entities.buffer2@[j]
                    == g0.entities.buffer2@[j],
                game.entities.buffer@.len() == g0.entities.buffer@.len(),
                forall|j: int| 0 <= j < g0.entities.buffer@.len() ==> #[trigger] game.entities.buffer@[j]@
                    == g0.entities.buffer@[j]@ + sent_to(second_messages(core, idx, mass, acts.take(i as int)).0, j),
            decreases acts.len() - i,
        {
            let ghost before = *game;
            let ghost msgs = second_messages(core, idx, mass, acts.take(i as int)).0;
            proof {
                lemma_take_next(acts, i as int);
                assert(acts[i as int] is KilledConfirmed);
            }
            match actions[i] {
                EntityAction::KilledConfirmed(killer) => {
                    if killer != entity_index {
                        proof {
                            lemma_chain_end_in(core, killer as int, core.len());
                        }
                        let end = Self::chain_end_of(game, killer);
                        game.entities.send_buffer(end, EntityAction::AddMass(mass));
                        let ghost m1 = msgs.push((end, EntityAction::AddMass(mass)));
                        proof {
                            assert forall|j: int| 0 <= j < g0.entities.buffer@.len() implies #[trigger] game.entities.buffer@[j]@
                                == g0.entities.buffer@[j]@ + sent_to(m1, j) by {
                                assert(m1.drop_last() =~= msgs);
                                if j == end {
                                    assert(game.entities.buffer@[j]@ =~= before.entities.buffer@[j]@.push(EntityAction::AddMass(mass)));
                                }
                            }
                        }
                        match game.entities.core[entity_index].characteristics.on_death {
                            Some(OnDeathEffect::Split(count)) => {
                                if !game.entities.core[end].characteristics.can_split_on_kill {
                                    stop = true;
                                    proof {
                                        assert(msgs + Seq::empty().push((end, EntityAction::AddMass(mass))) =~= m1);
                                    }
                                } else {
                                    let ghost before2 = *game;
                                    game.entities.send_buffer(end, EntityAction::Split(count));
                                    let ghost m2 = m1.push((end, EntityAction::Split(count)));
                                    proof {
                                        assert forall|j: int| 0 <= j < g0.entities.buffer@.len() implies #[trigger] game.entities.buffer@[j]@
                                            == g0.entities.buffer@[j]@ + sent_to(m2, j) by {
                                            assert(m2.drop_last() =~= m1);
                                            if j == end {
                                                assert(game.entities.buffer@[j]@ =~= before2.entities.buffer@[j]@.push(EntityAction::Split(count)));
                                            }
                                        }
                                        assert(msgs + Seq::empty().push((end, EntityAction::AddMass(mass))).push((end, EntityAction::Split(count))) =~= m2);
                                    }
                                }
                            },
                            None => {
                                proof {
                                    assert(msgs + Seq::empty().push((end, EntityAction::AddMass(mass))) =~= m1);
                                }
                            },
                        }
                    } else {
                        proof {
                            assert(msgs + Seq::<(usize, EntityAction)>::empty() =~= msgs);
                        }
                    }
                },
                _ => {},
            }
            i = i + 1;
        }
        proof {
            if stop {
                lemma_stopped_stays(core, idx, mass, acts, i as int);
            } else {
                assert(acts.take(acts.len() as int) =~= acts);
            }
            lemma_only_buffers_keeps_wf(*game, g0);
        }
    }
}

/// The total mass of a list of pieces.
pub open spec fn pieces_mass(pieces: Seq<(Point2D, i64, int, EntityColor)>) -> int
    decreases pieces.len(),
{
    if pieces.len() == 0 {
        0
    } else {
        pieces_mass(pieces.drop_last()) + pieces.last().1
    }
}

/// A split conserves mass: what the entity keeps and what its pieces carry
/// add up to what it weighed.
pub proof fn lemma_split_conserves_mass(p: Point2D, c: EntityColor, m: int, draws: Seq<i64>)
    ensures
        (m - sum_of(draws)) + pieces_mass(split_pieces(p, c, m, draws)) == m,
    decreases draws.len(),
{
    if draws.len() > 0 {
        lemma_split_conserves_mass(p, c, m, draws.drop_last());
        let ps = split_pieces(p, c, m, draws);
        assert(ps.drop_last() =~= split_pieces(p, c, m, draws.drop_last()));
    }
}

/// The first killer to arrive stays the recorded one, whatever follows.
pub proof fn lemma_first_killer_stays(k: usize, acts: Seq<EntityAction>)
    ensures
        killed_fold(Some(k), acts) == Some(k),
    decreases acts.len(),
{
    if acts.len() > 0 {
        lemma_first_killer_stays(k, acts.drop_last());
    }
}

/// The running count of a timer, zero when it is stopped.
pub open spec fn count_of(t: Option<i32>) -> int {
    match t {
        Some(v) => v as int,
        None => 0,
    }
}

/// The count-down `t` after `x` more: running with the sum when it is
/// positive, stopped otherwise.
pub open spec fn counted(t: Option<i32>, x: i32) -> Option<i32> {
    if count_of(t) + x > 0 {
        Some((count_of(t) + x) as i32)
    } else {
        None
    }
}

/// Each change of a count-down moves that count-down alone, by its
/// amount, stopping it once it is not positive; the other timers stay.
pub proof fn lemma_each_timer_change_moves_one_count_down(t: EntityTimer, x: i32)
    ensures
        ({
            let r = timer_step(t, EntityAction::AddCollisionTime(x));
            &&& r.collision == counted(t.collision, x)
            &&& r.collision_ratio == t.collision_ratio
            &&& r.inertia == t.inertia
            &&& r.mergeable == t.mergeable
            &&& r.lifetime_left == t.lifetime_left
        }),
        ({
            let r = timer_step(t, EntityAction::AddCollisionRatioTime(x));
            &&& r.collision_ratio == counted(t.collision_ratio, x)
            &&& r.collision == t.collision
            &&& r.inertia == t.inertia
            &&& r.mergeable == t.mergeable
            &&& r.lifetime_left == t.lifetime_left
        }),
        ({
            let r = timer_step(t, EntityAction::AddInertiaTime(x));
            &&& r.inertia == counted(t.inertia, x)
            &&& r.collision == t.collision
            &&& r.collision_ratio == t.collision_ratio
            &&& r.mergeable == t.mergeable
            &&& r.lifetime_left == t.lifetime_left
        }),
        ({
            let r = timer_step(t, EntityAction::AddMergeableTime(x));
            &&& r.mergeable == counted(t.mergeable, x)
            &&& r.collision == t.collision
            &&& r.collision_ratio == t.collision_ratio
            &&& r.inertia == t.inertia
            &&& r.lifetime_left == t.lifetime_left
        }),
{
}

/// A split never makes more pieces than it is asked for, nor more than
/// the cap on splits leaves to the player: none when the player owns as
/// many entities as the cap or more.
pub proof fn lemma_split_respects_the_cap(m: int, min: int, count: int, owned: int, max_split: int, draws: Seq<i64>)
    requires
        0 <= count,
        split_draws_ok(m, min, split_tries(count, owned, max_split), draws),
    ensures
        draws.len() <= count,
        owned >= max_split ==> draws.len() == 0,
        owned < max_split ==> draws.len() <= max_split - owned,
{
}

/// Within a game, a split of entity `i` makes no more pieces than it is
/// asked for, nor more than the cap on splits leaves to the entity's
/// player: none when the player already owns as many entities as the cap
/// or more.
pub proof fn lemma_split_in_game_respects_the_cap(g: Game, i: int, m: int, count: usize, t: Seq<i64>)
    requires
        step_draws_ok(m, EntityAction::Split(count), first_context(g, i), t),
    ensures
        t.len() <= count,
        g.players@[g.entities.core@[i].player as int].entities@.len() >= g.settings.max_split ==> t.len() == 0,
        g.players@[g.entities.core@[i].player as int].entities@.len() < g.settings.max_split ==> t.len()
            <= g.settings.max_split - g.players@[g.entities.core@[i].player as int].entities@.len(),
{
    lemma_split_respects_the_cap(
        m,
        g.entities.core@[i].characteristics.mass_min as int,
        count as int,
        g.players@[g.entities.core@[i].player as int].entities@.len() as int,
        g.settings.max_split as int,
        t,
    );
}

/// A timer counts down by one per update and stops once its count is
/// spent.
pub proof fn lemma_timer_counts_down(n: i32)
    requires
        n >= 1,
    ensures
        timer_added(Some(n), -1i32) == if n > 1 { Some((n - 1) as i32) } else { None },
{
}

} // verus!
