use vstd::prelude::*;
use crate::entity::{EntityInfo, EntityTimer, same_characteristics};
use crate::entity::entities::clamp_spec;
use crate::geometry::{Point2D, Rect, Vector2D};
use crate::entity::{EntityAction, EntityColor, ThrownEntityColor};
use crate::random::random_index;
use crate::entity::{max_int, min_int};
use crate::game::{EditorState, Game, GameState, lemma_map_covers, lemma_regrid_keeps_wf, lemma_same_structure_keeps_wf};
use crate::entity::characteristics_validatable;
use super::cache_game::{CacheGameSolver, handles_ok, follows, made_from};
use crate::random::random_in;

verus! {

/// `g` is `g0` after entity `x` split, its new piece placed at `offset`
/// from it: what `EventsSolver::split_entity` does to an entity heavier
/// than twenty units.
pub open spec fn split_result(g: Game, g0: Game, x: int, offset: Vector2D) -> bool {
    let n = g0.entities.core@.len() as int;
    let m = g0.entities.mass@[x];
    let c = g0.entities.core@[x];
    let p = g0.entities.position@[x];
    let e = g.entities;
    &&& e.core@.len() == n + 1
    &&& e.mass@[x] == m / 2
    &&& e.timer@[x] == (EntityTimer { mergeable: Some(1_000), ..g0.entities.timer@[x] })
    &&& forall|i: int| 0 <= i < n && i != x ==> #[trigger] e.mass@[i] == g0.entities.mass@[i]
    &&& forall|i: int| 0 <= i < n && i != x ==> #[trigger] e.timer@[i] == g0.entities.timer@[i]
    &&& forall|i: int| 0 <= i < n ==> #[trigger] e.position@[i] == g0.entities.position@[i]
    &&& e.core@[n].player == 1
    &&& same_characteristics(e.core@[n].characteristics, c.characteristics)
    &&& e.core@[n].color == c.color
    &&& e.core@[n].index.texture == c.index.texture
    &&& e.timer@[n] == (EntityTimer {
        collision: Some(1),
        collision_ratio: Some(10),
        mergeable: Some(1_000),
        inertia: Some(20),
        lifetime_left: None,
    })
    &&& e.mass@[n] == clamp_spec(m / 2, c.characteristics.mass_min as int, c.characteristics.mass_max as int)
    &&& e.position@[n].x == clamp_spec(p.x + offset.x, 0, g0.map.max_spec().width as int)
    &&& e.position@[n].y == clamp_spec(p.y + offset.y, 0, g0.map.max_spec().height as int)
    &&& c.characteristics.mass_min <= m / 2 <= c.characteristics.mass_max ==> e.mass@[x] + e.mass@[n]
        == m - m % 2
    &&& forall|i: int| 0 <= i < n ==> #[trigger] e.core@[i] == g0.entities.core@[i]
    &&& e.main_ptrs@.len() == g0.entities.main_ptrs@.len() + 1
    &&& g.id_generator.next <= g0.id_generator.next + 1
    &&& g.settings == g0.settings
    &&& g.map.size == g0.map.size
    &&& g.players@.len() == g0.players@.len()
    &&& g.players@[1].entities@ == g0.players@[1].entities@.push(n as usize)
    &&& forall|q: int| 0 <= q < g0.players@.len() && q != 1 ==>
        #[trigger] g.players@[q].entities@ == g0.players@[q].entities@
}

/// Entity `j` of `g` is a piece of food thrown by entity `x` of `g0` and
/// placed at `offset` from it: player 0, the food settings' characteristics,
/// timers and mass, the thrower's texture, and the colour that the food
/// settings ask for.
pub open spec fn thrown_piece(g: Game, g0: Game, x: int, offset: Vector2D, j: int) -> bool {
    let f = g0.settings.local_player_food_settings;
    let c = g0.entities.core@[x];
    let p = g0.entities.position@[x];
    let e = g.entities;
    &&& e.core@[j].player == 0
    &&& same_characteristics(e.core@[j].characteristics, f.characteristics_entity_thrown)
    &&& e.core@[j].index.texture == c.index.texture
    &&& e.timer@[j] == f.timer
    &&& e.mass@[j] == clamp_spec(
        f.mass_entity_thrown as int,
        f.characteristics_entity_thrown.mass_min as int,
        f.characteristics_entity_thrown.mass_max as int,
    )
    &&& e.position@[j].x == clamp_spec(p.x + offset.x, 0, g0.map.max_spec().width as int)
    &&& e.position@[j].y == clamp_spec(p.y + offset.y, 0, g0.map.max_spec().height as int)
    &&& match f.color {
        ThrownEntityColor::Same => e.core@[j].color == c.color,
        ThrownEntityColor::Custom(k) => e.core@[j].color == k,
        ThrownEntityColor::Random(v) => v@.contains(e.core@[j].color),
    }
}

/// `g` is `g0` after entity `x` threw `r` pieces of food, one after the
/// other, all placed at `offset` from it: its buffer holds `r` more mass
/// changes and the pieces follow one another at the end of the entities.
pub open spec fn throws_result(g: Game, g0: Game, x: int, offset: Vector2D, r: nat) -> bool {
    let n = g0.entities.core@.len() as int;
    let f = g0.settings.local_player_food_settings;
    let e = g.entities;
    &&& e.core@.len() == n + r
    &&& e.buffer@[x]@ == g0.entities.buffer@[x]@ + Seq::new(r, |t: int| EntityAction::AddMass(f.mass_self_added))
    &&& forall|i: int| 0 <= i < n && i != x ==> #[trigger] e.buffer@[i] == g0.entities.buffer@[i]
    &&& forall|i: int| 0 <= i < n ==> #[trigger] e.mass@[i] == g0.entities.mass@[i]
    &&& forall|i: int| 0 <= i < n ==> #[trigger] e.position@[i] == g0.entities.position@[i]
    &&& forall|i: int| 0 <= i < n ==> #[trigger] e.core@[i] == g0.entities.core@[i]
    &&& forall|i: int| 0 <= i < n ==> #[trigger] e.timer@[i] == g0.entities.timer@[i]
    &&& forall|j: int| n <= j < n + r ==> #[trigger] thrown_piece(g, g0, x, offset, j)
    &&& e.main_ptrs@.len() == g0.entities.main_ptrs@.len() + r
    &&& g.id_generator.next <= g0.id_generator.next + r
    &&& g.settings == g0.settings
    &&& g.map.size == g0.map.size
    &&& g.map.max_spec() == g0.map.max_spec()
    &&& g.players@.len() == g0.players@.len()
    &&& g.players@[0].entities@ == g0.players@[0].entities@ + Seq::new(r, |t: int| (n + t) as usize)
    &&& forall|q: int| 1 <= q < g0.players@.len() ==> #[trigger] g.players@[q].entities@ == g0.players@[q].entities@
}

/// One more piece thrown by the same entity.
proof fn lemma_throws_step(g2: Game, g: Game, g0: Game, x: int, offset: Vector2D, t: nat)
    requires
        g0.wf(),
        g2.wf(),
        0 <= x < g0.entities.core@.len(),
        throws_result(g, g0, x, offset, t),
        throw_result(g2, g, x, offset),
    ensures
        throws_result(g2, g0, x, offset, t + 1),
{
    let n = g0.entities.core@.len() as int;
    let f = g0.settings.local_player_food_settings;
    assert(g.entities.core@[x] == g0.entities.core@[x]);
    assert(g.entities.position@[x] == g0.entities.position@[x]);
    assert(g2.entities.buffer@[x]@ =~= g0.entities.buffer@[x]@ + Seq::new(
        t + 1,
        |s: int| EntityAction::AddMass(f.mass_self_added),
    ));
    assert(g2.players@[0].entities@ =~= g0.players@[0].entities@ + Seq::new(t + 1, |s: int| (n + s) as usize));
    assert forall|j: int| n <= j < n + t + 1 implies #[trigger] thrown_piece(g2, g0, x, offset, j) by {
        if j < n + t {
            assert(thrown_piece(g, g0, x, offset, j));
            assert(g2.entities.core@[j] == g.entities.core@[j]);
            assert(g2.entities.timer@[j] == g.entities.timer@[j]);
            assert(g2.entities.mass@[j] == g.entities.mass@[j]);
            assert(g2.entities.position@[j] == g.entities.position@[j]);
        } else {
            assert(thrown_piece(g2, g, x, offset, j));
        }
    }
}

/// The number of pieces of food that each throwing entity throws: the
/// throw ratio, or none when it is negative.
pub open spec fn throw_pieces(g: Game) -> nat {
    let r = g.settings.local_player_food_settings.throw_ratio;
    if r > 0 { r as nat } else { 0 }
}

/// Entry `k` of the local list throws food: it weighs more than the food
/// settings' minimum.
pub open spec fn throws(g: Game, k: int) -> bool {
    g.entities.mass@[local_list(g)[k] as int] > g.settings.local_player_food_settings.mass_minimum_to_throw
}

/// How many of the first `i` entries of the local list throw food.
pub open spec fn throws_before(g: Game, i: nat) -> nat
    decreases i,
{
    if i == 0 {
        0
    } else {
        throws_before(g, (i - 1) as nat) + if throws(g, i - 1) { 1nat } else { 0nat }
    }
}

/// How many pieces of food the first `i` entries of the local list throw.
pub open spec fn pieces_before(g: Game, i: nat) -> nat
    decreases i,
{
    if i == 0 {
        0
    } else {
        pieces_before(g, (i - 1) as nat) + if throws(g, i - 1) { throw_pieces(g) } else { 0nat }
    }
}

proof fn lemma_pieces_before_grows(g: Game, a: nat, b: nat)
    requires
        a <= b,
    ensures
        pieces_before(g, a) <= pieces_before(g, b),
    decreases b,
{
    if a < b {
        lemma_pieces_before_grows(g, a, (b - 1) as nat);
    }
}

/// Each throwing entry throws the same number of pieces.
pub proof fn lemma_pieces_before_count(g: Game, i: nat)
    ensures
        pieces_before(g, i) == throws_before(g, i) * throw_pieces(g),
    decreases i,
{
    if i > 0 {
        lemma_pieces_before_count(g, (i - 1) as nat);
        let a = throws_before(g, (i - 1) as nat);
        let r = throw_pieces(g);
        assert((a + 1) * r == a * r + r) by (nonlinear_arith);
        if throws(g, i - 1) {
            assert(throws_before(g, i) == a + 1);
            assert(pieces_before(g, i) == pieces_before(g, (i - 1) as nat) + r);
            assert(throws_before(g, i) * r == (a + 1) * r);
        } else {
            assert(throws_before(g, i) == a);
            assert(pieces_before(g, i) == pieces_before(g, (i - 1) as nat));
        }
    } else {
        let r = throw_pieces(g);
        assert(0 * r == 0) by (nonlinear_arith);
    }
}

/// The facts about the food thrown by the local list that hold throughout:
/// the game is sound, there is one offset per entry, and each throw that
/// may come can be made.
pub open spec fn throw_static(g0: Game, offsets: Seq<Vector2D>) -> bool {
    let l = local_list(g0);
    let f = g0.settings.local_player_food_settings;
    let total = throws_before(g0, l.len()) * throw_pieces(g0);
    &&& g0.wf()
    &&& g0.settings.local_player < g0.players@.len()
    &&& offsets.len() == l.len()
    &&& forall|k: int| 0 <= k < offsets.len() ==> {
        let e = l[k] as int;
        &&& i32::MIN <= g0.entities.position@[e].x + (#[trigger] offsets[k]).x <= i32::MAX
        &&& i32::MIN <= g0.entities.position@[e].y + offsets[k].y <= i32::MAX
    }
    &&& throws_before(g0, l.len()) > 0 ==> {
        &&& f.characteristics_entity_thrown.mass_min <= f.characteristics_entity_thrown.mass_max
        &&& f.color matches ThrownEntityColor::Random(v) ==> v@.len() > 0
    }
    &&& g0.entities.core@.len() + total < usize::MAX
    &&& g0.entities.main_ptrs@.len() + total < usize::MAX
    &&& g0.id_generator.next + total < usize::MAX
}

/// What the turn of entry `k` of the local list did: a throwing entry has
/// as many more mass changes as pieces thrown, and its pieces stand after
/// the pieces of the entries before it.
pub open spec fn throw_effect(g: Game, g0: Game, offsets: Seq<Vector2D>, k: int) -> bool {
    let l = local_list(g0);
    let n = g0.entities.core@.len() as int;
    let x = l[k] as int;
    let f = g0.settings.local_player_food_settings;
    let r = if throws(g0, k) { throw_pieces(g0) } else { 0nat };
    let first = n + pieces_before(g0, k as nat);
    &&& g.entities.buffer@[x]@ == g0.entities.buffer@[x]@ + Seq::new(r, |t: int| EntityAction::AddMass(f.mass_self_added))
    &&& forall|j: int| first <= j < first + r ==> #[trigger] thrown_piece(g, g0, x, offsets[k], j)
}

/// The state of the throws of the local list once its first `i` entries
/// had their turn.
#[verifier::opaque]
pub open spec fn throw_done(g: Game, g0: Game, offsets: Seq<Vector2D>, i: int) -> bool {
    let l = local_list(g0);
    let n = g0.entities.core@.len() as int;
    let n0 = l.len() as int;
    let pb = pieces_before(g0, i as nat);
    &&& 0 <= i <= n0
    &&& g.wf()
    &&& g.settings == g0.settings
    &&& g.map.size == g0.map.size
    &&& g.map.max_spec() == g0.map.max_spec()
    &&& g.players@.len() == g0.players@.len()
    &&& g.entities.core@.len() == n + pb
    &&& g.entities.main_ptrs@.len() == g0.entities.main_ptrs@.len() + pb
    &&& g.id_generator.next <= g0.id_generator.next + pb
    &&& local_list(g).len() == n0 + if g0.settings.local_player == 0 { pb as int } else { 0 }
    &&& forall|k: int| 0 <= k < n0 ==> #[trigger] local_list(g)[k] == l[k]
    &&& forall|y: int| 0 <= y < n ==> #[trigger] g.entities.core@[y] == g0.entities.core@[y]
    &&& forall|y: int| 0 <= y < n ==> #[trigger] g.entities.position@[y] == g0.entities.position@[y]
    &&& forall|y: int| 0 <= y < n ==> #[trigger] g.entities.mass@[y] == g0.entities.mass@[y]
    &&& forall|k: int| i <= k < n0 ==> #[trigger] g.entities.buffer@[l[k] as int] == g0.entities.buffer@[l[k] as int]
    &&& forall|y: int| 0 <= y < n && !l.contains(y as usize) ==> #[trigger] g.entities.buffer@[y] == g0.entities.buffer@[y]
    &&& forall|k: int| 0 <= k < i ==> #[trigger] throw_effect(g, g0, offsets, k)
}

proof fn lemma_throw_start(g0: Game, offsets: Seq<Vector2D>)
    requires
        throw_static(g0, offsets),
    ensures
        throw_done(g0, g0, offsets, 0),
{
    reveal(throw_done);
}

/// Before the turn of entry `i`: what the call of `throw_from` needs.
proof fn lemma_throw_turn(g: Game, g0: Game, offsets: Seq<Vector2D>, i: int)
    requires
        throw_static(g0, offsets),
        throw_done(g, g0, offsets, i),
        i < offsets.len(),
    ensures
        g.wf(),
        g.settings == g0.settings,
        g.players@.len() == g0.players@.len(),
        local_list(g).len() >= local_list(g0).len(),
        local_list(g)[i] == local_list(g0)[i],
        ({
            let x = local_list(g0)[i] as int;
            let f = g.settings.local_player_food_settings;
            let r = throw_pieces(g0);
            &&& x < g0.entities.core@.len()
            &&& g.entities.mass@[x] == g0.entities.mass@[x]
            &&& i32::MIN <= g.entities.position@[x].x + offsets[i].x <= i32::MAX
            &&& i32::MIN <= g.entities.position@[x].y + offsets[i].y <= i32::MAX
            &&& g.entities.mass@[x] > f.mass_minimum_to_throw ==> {
                &&& 0 < g.players@.len()
                &&& f.characteristics_entity_thrown.mass_min <= f.characteristics_entity_thrown.mass_max
                &&& f.color matches ThrownEntityColor::Random(v) ==> v@.len() > 0
                &&& g.entities.core@.len() + r < usize::MAX
                &&& g.entities.main_ptrs@.len() + r < usize::MAX
                &&& g.id_generator.next + r < usize::MAX
            }
        }),
{
    reveal(throw_done);
    let l = local_list(g0);
    let n0 = l.len();
    lemma_list_distinct(g0, g0.settings.local_player as int);
    assert(l[i] < g0.entities.core@.len());
    assert(local_list(g)[i] == l[i]);
    let x = l[i] as int;
    if throws(g0, i) {
        lemma_pieces_before_grows(g0, (i + 1) as nat, n0);
        lemma_throws_before_grows(g0, (i + 1) as nat, n0);
        lemma_pieces_before_count(g0, n0);
    }
}

proof fn lemma_throws_before_grows(g: Game, a: nat, b: nat)
    requires
        a <= b,
    ensures
        throws_before(g, a) <= throws_before(g, b),
    decreases b,
{
    if a < b {
        lemma_throws_before_grows(g, a, (b - 1) as nat);
    }
}

/// The turn of entry `i`: nothing changes when it does not throw, and the
/// throws of `throw_from` when it does.
proof fn lemma_throw_step(before: Game, after: Game, g0: Game, offsets: Seq<Vector2D>, i: int)
    requires
        throw_static(g0, offsets),
        throw_done(before, g0, offsets, i),
        i < offsets.len(),
        after.wf(),
        before.entities.mass@[local_list(g0)[i] as int] <= g0.settings.local_player_food_settings.mass_minimum_to_throw
            ==> after == before,
        before.entities.mass@[local_list(g0)[i] as int] > g0.settings.local_player_food_settings.mass_minimum_to_throw
            ==> throws_result(after, before, local_list(g0)[i] as int, offsets[i], throw_pieces(g0)),
    ensures
        throw_done(after, g0, offsets, i + 1),
{
    reveal(throw_done);
    lemma_throw_turn(before, g0, offsets, i);
    lemma_list_distinct(g0, g0.settings.local_player as int);
    let l = local_list(g0);
    let n = g0.entities.core@.len() as int;
    let x = l[i] as int;
    let pb = pieces_before(g0, i as nat);
    let r = throw_pieces(g0);
    let f = g0.settings.local_player_food_settings;
    if throws(g0, i) {
        let nb = before.entities.core@.len() as int;
        assert(nb == n + pb);
        assert forall|k: int| 0 <= k < l.len() implies #[trigger] local_list(after)[k] == l[k] by {
            assert(local_list(before)[k] == l[k]);
        }
        assert forall|k: int| 0 <= k < i + 1 implies #[trigger] throw_effect(after, g0, offsets, k) by {
            if k < i {
                assert(throw_effect(before, g0, offsets, k));
                let x2 = l[k] as int;
                assert(x2 != x);
                assert(after.entities.buffer@[x2] == before.entities.buffer@[x2]);
                if throws(g0, k) {
                    lemma_pieces_before_grows(g0, (k + 1) as nat, i as nat);
                    let first = n + pieces_before(g0, k as nat);
                    assert forall|j: int| first <= j < first + r implies #[trigger] thrown_piece(
                        after,
                        g0,
                        x2,
                        offsets[k],
                        j,
                    ) by {
                        assert(thrown_piece(before, g0, x2, offsets[k], j));
                        assert(after.entities.core@[j] == before.entities.core@[j]);
                        assert(after.entities.timer@[j] == before.entities.timer@[j]);
                        assert(after.entities.mass@[j] == before.entities.mass@[j]);
                        assert(after.entities.position@[j] == before.entities.position@[j]);
                    }
                }
            } else {
                assert(before.entities.buffer@[x] == g0.entities.buffer@[x]);
                assert forall|j: int| nb <= j < nb + r implies #[trigger] thrown_piece(after, g0, x, offsets[i], j) by {
                    assert(thrown_piece(after, before, x, offsets[i], j));
                }
            }
        }
        assert forall|k: int| i + 1 <= k < l.len() implies #[trigger] after.entities.buffer@[l[k] as int]
            == g0.entities.buffer@[l[k] as int] by {
            assert(l[k] != l[i]);
        }
        assert forall|y: int| 0 <= y < n && !l.contains(y as usize) implies #[trigger] after.entities.buffer@[y]
            == g0.entities.buffer@[y] by {
            assert(l.contains(l[i]));
        }
    } else {
        assert(after == before);
        assert forall|k: int| 0 <= k < i + 1 implies #[trigger] throw_effect(after, g0, offsets, k) by {
            if k < i {
                assert(throw_effect(before, g0, offsets, k));
            } else {
                assert(before.entities.buffer@[x] == g0.entities.buffer@[x]);
                assert(after.entities.buffer@[x]@ =~= g0.entities.buffer@[x]@ + Seq::new(
                    0,
                    |t: int| EntityAction::AddMass(f.mass_self_added),
                ));
            }
        }
    }
}

proof fn lemma_throw_end(g: Game, g0: Game, offsets: Seq<Vector2D>)
    requires
        throw_done(g, g0, offsets, offsets.len() as int),
        offsets.len() == local_list(g0).len(),
    ensures
        g.wf(),
        g.settings == g0.settings,
        g.entities.core@.len() == g0.entities.core@.len() + throws_before(g0, local_list(g0).len()) * throw_pieces(g0),
        forall|k: int| 0 <= k < local_list(g0).len() ==> #[trigger] throw_effect(g, g0, offsets, k),
        forall|y: int| 0 <= y < g0.entities.core@.len() ==> #[trigger] g.entities.mass@[y] == g0.entities.mass@[y],
        forall|y: int| 0 <= y < g0.entities.core@.len() ==> #[trigger] g.entities.position@[y] == g0.entities.position@[y],
        forall|y: int| 0 <= y < g0.entities.core@.len() ==> #[trigger] g.entities.core@[y] == g0.entities.core@[y],
        forall|y: int| 0 <= y < g0.entities.core@.len() && !local_list(g0).contains(y as usize) ==> #[trigger] g.entities.buffer@[y]
            == g0.entities.buffer@[y],
{
    reveal(throw_done);
    lemma_pieces_before_count(g0, local_list(g0).len());
}

/// `g` is `g0` after entity `x` threw one piece of food placed at `offset`
/// from it: what `EventsSolver::throw_food` does to an entity heavier than
/// the food settings' minimum.
pub open spec fn throw_result(g: Game, g0: Game, x: int, offset: Vector2D) -> bool {
    let n = g0.entities.core@.len() as int;
    let f = g0.settings.local_player_food_settings;
    let e = g.entities;
    &&& e.core@.len() == n + 1
    &&& e.buffer@[x]@ == g0.entities.buffer@[x]@.push(EntityAction::AddMass(f.mass_self_added))
    &&& forall|i: int| 0 <= i < n && i != x ==> #[trigger] e.buffer@[i] == g0.entities.buffer@[i]
    &&& forall|i: int| 0 <= i < n ==> #[trigger] e.mass@[i] == g0.entities.mass@[i]
    &&& forall|i: int| 0 <= i < n ==> #[trigger] e.position@[i] == g0.entities.position@[i]
    &&& forall|i: int| 0 <= i < n ==> #[trigger] e.core@[i] == g0.entities.core@[i]
    &&& forall|i: int| 0 <= i < n ==> #[trigger] e.timer@[i] == g0.entities.timer@[i]
    &&& thrown_piece(g, g0, x, offset, n)
    &&& e.main_ptrs@.len() == g0.entities.main_ptrs@.len() + 1
    &&& g.id_generator.next <= g0.id_generator.next + 1
    &&& g.settings == g0.settings
    &&& g.map.size == g0.map.size
    &&& g.players@.len() == g0.players@.len()
    &&& g.players@[0].entities@ == g0.players@[0].entities@.push(n as usize)
    &&& forall|q: int| 1 <= q < g0.players@.len() ==> #[trigger] g.players@[q].entities@ == g0.players@[q].entities@
}

/// The local player's list of entities.
pub open spec fn local_list(g: Game) -> Seq<usize> {
    g.players@[g.settings.local_player as int].entities@
}

/// With `before` entities split already, entry `k` of the local list
/// splits: it weighs more than twenty units and the local list is still
/// shorter than the cap (it grows with each split when the local player is
/// player 1, who receives the pieces).
pub open spec fn splits_at(g: Game, k: int, before: nat) -> bool {
    let l = local_list(g);
    &&& g.entities.mass@[l[k] as int] > 20_000_000
    &&& l.len() + (if g.settings.local_player == 1 { before as int } else { 0 }) < g.settings.max_split
}

/// How many of the first `i` entries of the local list split, taken in
/// order.
pub open spec fn splits_before(g: Game, i: nat) -> nat
    decreases i,
{
    if i == 0 {
        0
    } else {
        let k = (i - 1) as nat;
        splits_before(g, k) + if splits_at(g, k as int, splits_before(g, k)) { 1nat } else { 0nat }
    }
}

/// Counting the splits of a longer prefix never gives fewer.
proof fn lemma_splits_before_grows(g: Game, a: nat, b: nat)
    requires
        a <= b,
    ensures
        splits_before(g, a) <= splits_before(g, b),
    decreases b,
{
    if a < b {
        lemma_splits_before_grows(g, a, (b - 1) as nat);
    }
}

/// Entry `k` of the local list splits when its turn comes.
pub open spec fn splits(g: Game, k: int) -> bool {
    splits_at(g, k, splits_before(g, k as nat))
}

/// The facts about a split of the local list that hold throughout: the
/// game is sound, there is one offset per entry, and each split that may
/// come can be made.
pub open spec fn split_static(g0: Game, offsets: Seq<Vector2D>) -> bool {
    let l = local_list(g0);
    &&& g0.wf()
    &&& g0.settings.local_player < g0.players@.len()
    &&& offsets.len() == l.len()
    &&& forall|a: int, b: int| 0 <= a < b < l.len() ==> #[trigger] l[a] != #[trigger] l[b]
    &&& forall|a: int| 0 <= a < l.len() ==> (#[trigger] l[a]) < g0.entities.core@.len()
    &&& forall|k: int| 0 <= k < offsets.len() ==> {
        let e = l[k] as int;
        &&& i32::MIN <= g0.entities.position@[e].x + (#[trigger] offsets[k]).x <= i32::MAX
        &&& i32::MIN <= g0.entities.position@[e].y + offsets[k].y <= i32::MAX
        &&& g0.entities.mass@[e] > 20_000_000 ==> {
            &&& 1 < g0.players@.len()
            &&& g0.entities.core@[e].characteristics.mass_min <= g0.entities.core@[e].characteristics.mass_max
        }
    }
    &&& g0.entities.core@.len() + offsets.len() < usize::MAX
    &&& g0.entities.main_ptrs@.len() + offsets.len() < usize::MAX
    &&& g0.id_generator.next + offsets.len() < usize::MAX
}

/// What the turn of entry `k` of the local list did: the entity halved
/// and waits to merge when it split, and its piece stands after the pieces
/// of the entries before it.
pub open spec fn split_effect(g: Game, g0: Game, offsets: Seq<Vector2D>, k: int) -> bool {
    let l = local_list(g0);
    let n = g0.entities.core@.len() as int;
    let x = l[k] as int;
    let m = g0.entities.mass@[x];
    &&& g.entities.mass@[x] == if splits(g0, k) { m / 2 } else { m as int }
    &&& g.entities.timer@[x] == if splits(g0, k) {
        EntityTimer { mergeable: Some(1_000), ..g0.entities.timer@[x] }
    } else {
        g0.entities.timer@[x]
    }
    &&& splits(g0, k) ==> {
        let j = n + splits_before(g0, k as nat);
        let c = g0.entities.core@[x];
        let p = g0.entities.position@[x];
        &&& g.entities.core@[j].player == 1
        &&& same_characteristics(g.entities.core@[j].characteristics, c.characteristics)
        &&& g.entities.mass@[j] == clamp_spec(m / 2, c.characteristics.mass_min as int, c.characteristics.mass_max as int)
        &&& g.entities.position@[j].x == clamp_spec(p.x + offsets[k].x, 0, g0.map.max_spec().width as int)
        &&& g.entities.position@[j].y == clamp_spec(p.y + offsets[k].y, 0, g0.map.max_spec().height as int)
    }
}

/// The state of a split of the local list once its first `i` entries had
/// their turn.
#[verifier::opaque]
pub open spec fn split_done(g: Game, g0: Game, offsets: Seq<Vector2D>, i: int) -> bool {
    let l = local_list(g0);
    let n = g0.entities.core@.len() as int;
    let n0 = l.len() as int;
    let sb = splits_before(g0, i as nat);
    &&& 0 <= i <= n0
    &&& g.wf()
    &&& sb <= i
    &&& g.settings == g0.settings
    &&& g.map.size == g0.map.size
    &&& g.map.max_spec() == g0.map.max_spec()
    &&& g.players@.len() == g0.players@.len()
    &&& g.entities.core@.len() == n + sb
    &&& g.entities.main_ptrs@.len() == g0.entities.main_ptrs@.len() + sb
    &&& g.id_generator.next <= g0.id_generator.next + sb
    &&& local_list(g).len() == n0 + if g0.settings.local_player == 1 { sb as int } else { 0 }
    &&& g0.settings.local_player == 1 ==> n0 + sb <= max_int(n0, g0.settings.max_split as int)
    &&& forall|k: int| 0 <= k < n0 ==> #[trigger] local_list(g)[k] == l[k]
    &&& forall|x: int| 0 <= x < n ==> #[trigger] g.entities.core@[x] == g0.entities.core@[x]
    &&& forall|x: int| 0 <= x < n ==> #[trigger] g.entities.position@[x] == g0.entities.position@[x]
    &&& forall|k: int| i <= k < n0 ==> #[trigger] g.entities.mass@[l[k] as int] == g0.entities.mass@[l[k] as int]
    &&& forall|k: int| i <= k < n0 ==> #[trigger] g.entities.timer@[l[k] as int] == g0.entities.timer@[l[k] as int]
    &&& forall|y: int| 0 <= y < n && !l.contains(y as usize) ==> #[trigger] g.entities.mass@[y] == g0.entities.mass@[y]
        && g.entities.timer@[y] == g0.entities.timer@[y]
    &&& forall|k: int| 0 <= k < i ==> #[trigger] split_effect(g, g0, offsets, k)
}

proof fn lemma_split_start(g0: Game, offsets: Seq<Vector2D>)
    requires
        split_static(g0, offsets),
    ensures
        split_done(g0, g0, offsets, 0),
{
    reveal(split_done);
}

/// Before the turn of entry `i`: what the call of `split_entity` needs.
proof fn lemma_split_turn(g: Game, g0: Game, offsets: Seq<Vector2D>, i: int)
    requires
        split_static(g0, offsets),
        split_done(g, g0, offsets, i),
        i < offsets.len(),
    ensures
        g.wf(),
        g.settings == g0.settings,
        g.players@.len() == g0.players@.len(),
        local_list(g)[i] == local_list(g0)[i],
        local_list(g).len() < g.settings.max_split <==> local_list(g0).len() + (if g0.settings.local_player == 1 {
            splits_before(g0, i as nat) as int
        } else {
            0
        }) < g0.settings.max_split,
        ({
            let x = local_list(g0)[i] as int;
            &&& x < g.entities.core@.len()
            &&& g.entities.mass@[x] == g0.entities.mass@[x]
            &&& g.entities.position@[x] == g0.entities.position@[x]
            &&& g.entities.core@[x] == g0.entities.core@[x]
            &&& i32::MIN <= g.entities.position@[x].x + offsets[i].x <= i32::MAX
            &&& i32::MIN <= g.entities.position@[x].y + offsets[i].y <= i32::MAX
            &&& g.entities.mass@[x] > 20_000_000 ==> {
                &&& 1 < g.players@.len()
                &&& g.entities.core@[x].characteristics.mass_min <= g.entities.core@[x].characteristics.mass_max
                &&& g.entities.core@.len() < usize::MAX
                &&& g.entities.main_ptrs@.len() < usize::MAX
                &&& g.id_generator.can_generate()
            }
        }),
{
    reveal(split_done);
    let l = local_list(g0);
    assert(l[i] < g0.entities.core@.len());
    assert(local_list(g)[i] == l[i]);
}

/// The turn of entry `i`: nothing changes when it does not split, and the
/// split of `split_entity` when it does.
proof fn lemma_split_step(before: Game, after: Game, g0: Game, offsets: Seq<Vector2D>, i: int, cap: bool)
    requires
        split_static(g0, offsets),
        split_done(before, g0, offsets, i),
        i < offsets.len(),
        after.wf(),
        cap == (local_list(before).len() < before.settings.max_split),
        !cap ==> after == before,
        cap && before.entities.mass@[local_list(g0)[i] as int] <= 20_000_000 ==> after == before,
        cap && before.entities.mass@[local_list(g0)[i] as int] > 20_000_000 ==> split_result(
            after,
            before,
            local_list(g0)[i] as int,
            offsets[i],
        ),
    ensures
        split_done(after, g0, offsets, i + 1),
{
    reveal(split_done);
    lemma_split_turn(before, g0, offsets, i);
    let l = local_list(g0);
    let n = g0.entities.core@.len() as int;
    let x = l[i] as int;
    let sb = splits_before(g0, i as nat);
    assert(splits_before(g0, (i + 1) as nat) == sb + if splits_at(g0, i, sb) { 1nat } else { 0nat });
    if splits(g0, i) {
        let nb = before.entities.core@.len() as int;
        assert(nb == n + sb);
        assert forall|k: int| 0 <= k < l.len() implies #[trigger] local_list(after)[k] == l[k] by {
            assert(local_list(before)[k] == l[k]);
        }
        assert forall|k: int| 0 <= k < i + 1 implies #[trigger] split_effect(after, g0, offsets, k) by {
            if k < i {
                assert(split_effect(before, g0, offsets, k));
                let x2 = l[k] as int;
                assert(x2 != x);
                if splits(g0, k) {
                    lemma_splits_before_grows(g0, (k + 1) as nat, i as nat);
                    let j = n + splits_before(g0, k as nat);
                    assert(j < nb);
                    assert(after.entities.core@[j] == before.entities.core@[j]);
                    assert(after.entities.mass@[j] == before.entities.mass@[j]);
                    assert(after.entities.position@[j] == before.entities.position@[j]);
                }
                assert(after.entities.mass@[x2] == before.entities.mass@[x2]);
                assert(after.entities.timer@[x2] == before.entities.timer@[x2]);
            }
        }
        assert forall|k: int| i + 1 <= k < l.len() implies #[trigger] after.entities.mass@[l[k] as int]
            == g0.entities.mass@[l[k] as int] by {
            assert(l[k] != l[i]);
        }
        assert forall|y: int| 0 <= y < n && !l.contains(y as usize) implies #[trigger] after.entities.mass@[y]
            == g0.entities.mass@[y] && after.entities.timer@[y] == g0.entities.timer@[y] by {
            assert(l.contains(l[i]));
        }
        assert forall|k: int| i + 1 <= k < l.len() implies #[trigger] after.entities.timer@[l[k] as int]
            == g0.entities.timer@[l[k] as int] by {
            assert(l[k] != l[i]);
        }
    } else {
        assert(after == before);
        assert forall|k: int| 0 <= k < i + 1 implies #[trigger] split_effect(after, g0, offsets, k) by {
            if k < i {
                assert(split_effect(before, g0, offsets, k));
            }
        }
    }
}

proof fn lemma_split_end(g: Game, g0: Game, offsets: Seq<Vector2D>)
    requires
        split_done(g, g0, offsets, offsets.len() as int),
        offsets.len() == local_list(g0).len(),
    ensures
        g.wf(),
        g.entities.core@.len() == g0.entities.core@.len() + splits_before(g0, local_list(g0).len()),
        forall|k: int| 0 <= k < local_list(g0).len() ==> #[trigger] split_effect(g, g0, offsets, k),
        local_list(g).len() == local_list(g0).len() + if g0.settings.local_player == 1 {
            splits_before(g0, local_list(g0).len()) as int
        } else {
            0
        },
        g0.settings.local_player == 1 ==> local_list(g).len() <= max_int(
            local_list(g0).len() as int,
            g0.settings.max_split as int,
        ),
        forall|y: int| 0 <= y < g0.entities.core@.len() && !local_list(g0).contains(y as usize) ==> #[trigger] g.entities.mass@[y]
            == g0.entities.mass@[y] && g.entities.timer@[y] == g0.entities.timer@[y],
        forall|y: int| 0 <= y < g0.entities.core@.len() ==> #[trigger] g.entities.position@[y] == g0.entities.position@[y]
            && g.entities.core@[y] == g0.entities.core@[y],
{
    reveal(split_done);
}

/// The entries of a player's list are distinct entities of the game.
proof fn lemma_list_distinct(g: Game, p: int)
    requires
        g.wf(),
        0 <= p < g.players@.len(),
    ensures
        forall|a: int, b: int| 0 <= a < b < g.players@[p].entities@.len() ==> #[trigger] g.players@[p].entities@[a]
            != #[trigger] g.players@[p].entities@[b],
        forall|a: int| 0 <= a < g.players@[p].entities@.len() ==> (#[trigger] g.players@[p].entities@[a]) < g.entities.core@.len(),
{
    assert forall|a: int, b: int| 0 <= a < b < g.players@[p].entities@.len() implies #[trigger] g.players@[p].entities@[a]
        != #[trigger] g.players@[p].entities@[b] by {
        assert(g.entities.core@[g.players@[p].entities@[a] as int].index.player == a);
        assert(g.entities.core@[g.players@[p].entities@[b] as int].index.player == b);
    }
}

/// What the game does on the player's commands: its decisions on integer
/// positions and entities. Reading the devices and turning screen points
/// into world points happen beside it.
pub struct EventsSolver;

/// Where the grid records entity `i`: the cell under its position.
pub open spec fn recorded_in_place(g: Game, i: int) -> bool {
    let ix = g.entities.index_matrix_simple@[i];
    g.map.matrix_simple.field_of(g.entities.position@[i]) == (ix.x as int, ix.y as int)
}

/// `v / d` rounded towards zero, as `i32` division does.
pub open spec fn div_trunc(v: int, d: int) -> int {
    if v >= 0 {
        v / d
    } else {
        -((-v) / d)
    }
}

/// The first column (or row) of cells that a selection from `lo` to `hi`
/// looks in: the cell of `lo` clamped at zero.
pub open spec fn sel_first(lo: int, sf: int) -> int {
    max_int(lo, 0) / sf
}

/// The last column (or row): one past the cell of `hi`, within the grid.
pub open spec fn sel_last(hi: int, sf: int, size: int) -> int {
    min_int(div_trunc(hi, sf) + 1, size - 1)
}

/// Entity `e` is selected by a drag from `a` to `b`: its record lies in
/// one of the cells the selection looks in, and the position it records
/// lies in the rectangle with corners `a` and `b`, far edges excluded.
pub open spec fn selected(g: Game, a: Point2D, b: Point2D, e: int) -> bool {
    let m = g.map.matrix_simple;
    let sf = m.size_field as int;
    let ix = g.entities.index_matrix_simple@[e];
    let lx = min_int(a.x as int, b.x as int);
    let hx = max_int(a.x as int, b.x as int);
    let ly = min_int(a.y as int, b.y as int);
    let hy = max_int(a.y as int, b.y as int);
    let p = m.cell(ix.x as int, ix.y as int)[ix.z].position;
    &&& sel_first(lx, sf) <= ix.x <= sel_last(hx, sf, m.size.width as int)
    &&& sel_first(ly, sf) <= ix.y <= sel_last(hy, sf, m.size.height as int)
    &&& lx <= p.x < hx
    &&& ly <= p.y < hy
}

/// The walk over the cells has passed the record of entity `e`: columns
/// before `x`, rows before `y` in column `x`, and the slots `done` of cell
/// `(x, y)`.
pub open spec fn walked(g: Game, e: int, x: int, y: int, done: Seq<usize>) -> bool {
    let ix = g.entities.index_matrix_simple@[e];
    ix.x < x || (ix.x == x && (ix.y < y || (ix.y == y && done.contains(ix.z))))
}

/// The walk over the grid meets the record of entity `e1` before that of
/// `e2`: by column, then row, then slot.
pub open spec fn walk_before(g: Game, e1: int, e2: int) -> bool {
    let i1 = g.entities.index_matrix_simple@[e1];
    let i2 = g.entities.index_matrix_simple@[e2];
    i1.x < i2.x || (i1.x == i2.x && (i1.y < i2.y || (i1.y == i2.y && i1.z < i2.z)))
}

/// The selection so far: each entry a selected entity that the walk has
/// passed, with its handle beside it, no entity twice, and every selected
/// entity that the walk has passed listed.
pub open spec fn selection_so_far(
    g: Game,
    a: Point2D,
    b: Point2D,
    sel: Seq<usize>,
    handles: Seq<usize>,
    x: int,
    y: int,
    done: Seq<usize>,
) -> bool {
    &&& sel.len() == handles.len()
    &&& forall|k: int| 0 <= k < sel.len() ==> {
        &&& (#[trigger] sel[k]) < g.entities.core@.len()
        &&& selected(g, a, b, sel[k] as int)
        &&& walked(g, sel[k] as int, x, y, done)
        &&& handles[k] == g.entities.core@[sel[k] as int].index.main_ptr
    }
    &&& forall|i: int, j: int| 0 <= i < j < sel.len() ==> #[trigger] sel[i] != #[trigger] sel[j]
    &&& forall|i: int, j: int| 0 <= i < j < sel.len() ==> walk_before(g, #[trigger] sel[i] as int, #[trigger] sel[j] as int)
    &&& forall|e: int| 0 <= e < g.entities.core@.len() && selected(g, a, b, e) && #[trigger] walked(g, e, x, y, done) ==> sel.contains(
        e as usize,
    )
}

/// Where the walk has passed the same selected entities, the selection
/// so far stays the same.
pub proof fn lemma_walk_moves(
    g: Game,
    a: Point2D,
    b: Point2D,
    sel: Seq<usize>,
    handles: Seq<usize>,
    x1: int,
    y1: int,
    d1: Seq<usize>,
    x2: int,
    y2: int,
    d2: Seq<usize>,
)
    requires
        selection_so_far(g, a, b, sel, handles, x1, y1, d1),
        forall|e: int| 0 <= e < g.entities.core@.len() && selected(g, a, b, e) ==> #[trigger] walked(g, e, x1, y1, d1)
            == walked(g, e, x2, y2, d2),
    ensures
        selection_so_far(g, a, b, sel, handles, x2, y2, d2),
{
    assert forall|k: int| 0 <= k < sel.len() implies {
        &&& (#[trigger] sel[k]) < g.entities.core@.len()
        &&& selected(g, a, b, sel[k] as int)
        &&& walked(g, sel[k] as int, x2, y2, d2)
        &&& handles[k] == g.entities.core@[sel[k] as int].index.main_ptr
    } by {
        assert(walked(g, sel[k] as int, x1, y1, d1));
    }
    assert forall|e: int| 0 <= e < g.entities.core@.len() && selected(g, a, b, e) && #[trigger] walked(g, e, x2, y2, d2)
        implies sel.contains(e as usize) by {
        assert(walked(g, e, x1, y1, d1));
    }
}

impl EventsSolver {
    /// Revives the local player when it has no entity left: player 1
    /// gets an entity of one unit of displayed mass at `(x, y)`, with the
    /// local player's characteristics, colour and texture.
    pub fn revive_at(game: &mut Game, x: i32, y: i32)
        requires
            old(game).wf(),
            old(game).settings.local_player < old(game).players@.len(),
            old(game).players@[old(game).settings.local_player as int].entities@.len() == 0 ==> {
                &&& 1 < old(game).players@.len()
                &&& old(game).settings.local_player_characteristics.mass_min
                    <= old(game).settings.local_player_characteristics.mass_max
                &&& old(game).entities.core@.len() < usize::MAX
                &&& old(game).entities.main_ptrs@.len() < usize::MAX
                &&& old(game).id_generator.can_generate()
            },
        ensures
            final(game).wf(),
            old(game).players@[old(game).settings.local_player as int].entities@.len() > 0 ==> *final(game) == *old(game),
            old(game).players@[old(game).settings.local_player as int].entities@.len() == 0 ==> ({
                let n = old(game).entities.core@.len() as int;
                let e = final(game).entities;
                let lp = old(game).players@[old(game).settings.local_player as int];
                let ch = old(game).settings.local_player_characteristics;
                &&& e.core@.len() == n + 1
                &&& e.core@[n].player == 1
                &&& same_characteristics(e.core@[n].characteristics, ch)
                &&& e.core@[n].color == lp.cell_default_color
                &&& e.core@[n].index.texture == lp.cell_default_texture
                &&& e.timer@[n].is_idle()
                &&& e.mass@[n] == clamp_spec(1_000_000, ch.mass_min as int, ch.mass_max as int)
                &&& e.position@[n].x == clamp_spec(x as int, 0, old(game).map.max_spec().width as int)
                &&& e.position@[n].y == clamp_spec(y as int, 0, old(game).map.max_spec().height as int)
            }),
    {
        let local = game.settings.local_player;
        if game.players[local].entities.len() == 0 {
            let info = EntityInfo {
                player: 1,
                position: Point2D { x, y },
                mass: 1_000_000,
                color: game.players[local].cell_default_color,
                texture: game.players[local].cell_default_texture,
                timer: EntityTimer::default(),
                characteristics: game.settings.local_player_characteristics.duplicate(),
            };
            game.new_entity(info);
        }
    }

    /// The R key in play: revives the local player at a random point of the
    /// map when it has no entity left.
    pub fn revive(game: &mut Game)
        requires
            old(game).wf(),
            old(game).settings.local_player < old(game).players@.len(),
            old(game).players@[old(game).settings.local_player as int].entities@.len() == 0 ==> {
                &&& 1 < old(game).players@.len()
                &&& old(game).settings.local_player_characteristics.mass_min
                    <= old(game).settings.local_player_characteristics.mass_max
                &&& old(game).entities.core@.len() < usize::MAX
                &&& old(game).entities.main_ptrs@.len() < usize::MAX
                &&& old(game).id_generator.can_generate()
            },
        ensures
            final(game).wf(),
            old(game).players@[old(game).settings.local_player as int].entities@.len() > 0 ==> *final(game) == *old(game),
            old(game).players@[old(game).settings.local_player as int].entities@.len() == 0 ==> ({
                let n = old(game).entities.core@.len() as int;
                let e = final(game).entities;
                let lp = old(game).players@[old(game).settings.local_player as int];
                let ch = old(game).settings.local_player_characteristics;
                &&& e.core@.len() == n + 1
                &&& e.core@[n].player == 1
                &&& same_characteristics(e.core@[n].characteristics, ch)
                &&& e.core@[n].color == lp.cell_default_color
                &&& e.core@[n].index.texture == lp.cell_default_texture
                &&& e.timer@[n].is_idle()
                &&& e.mass@[n] == clamp_spec(1_000_000, ch.mass_min as int, ch.mass_max as int)
                &&& 0 <= e.position@[n].x < old(game).map.max_spec().width
                &&& 0 <= e.position@[n].y < old(game).map.max_spec().height
            }),
    {
        let local = game.settings.local_player;
        if game.players[local].entities.len() == 0 {
            let max = game.map.max();
            let x = random_in(0, max.width as i64 - 1) as i32;
            let y = random_in(0, max.height as i64 - 1) as i32;
            Self::revive_at(game, x, y);
        }
    }

    /// The E key in debug: the local player's entities can merge at once.
    pub fn make_mergeable(game: &mut Game)
        requires
            old(game).wf(),
            old(game).settings.local_player < old(game).players@.len(),
        ensures
            final(game).wf(),
            *final(game) == (Game {
                entities: crate::entity::entities::Entities { timer: final(game).entities.timer, ..old(game).entities },
                ..*old(game)
            }),
            final(game).entities.timer@.len() == old(game).entities.timer@.len(),
            forall|i: int| 0 <= i < old(game).entities.core@.len() ==> #[trigger] final(game).entities.timer@[i] == if old(
                game,
            ).players@[old(game).settings.local_player as int].entities@.contains(i as usize) {
                EntityTimer { mergeable: None, ..old(game).entities.timer@[i] }
            } else {
                old(game).entities.timer@[i]
            },
    {
        let ghost g0 = *game;
        let local = game.settings.local_player;
        let ghost list = game.players@[local as int].entities@;
        let count = game.players[local].entities.len();
        let n = game.entities.core.len();
        let mut k: usize = 0;
        while k < count
            invariant
                g0.wf(),
                n == g0.entities.core@.len(),
                local == g0.settings.local_player,
                local < g0.players@.len(),
                list == g0.players@[local as int].entities@,
                count == list.len(),
                k <= count,
                *game == (Game {
                    entities: crate::entity::entities::Entities { timer: game.entities.timer, ..g0.entities },
                    ..g0
                }),
                game.entities.timer@.len() == g0.entities.timer@.len(),
                forall|i: int| 0 <= i < g0.entities.core@.len() ==> #[trigger] game.entities.timer@[i] == if list.take(
                    k as int,
                ).contains(i as usize) {
                    EntityTimer { mergeable: None, ..g0.entities.timer@[i] }
                } else {
                    g0.entities.timer@[i]
                },
            decreases count - k,
        {
            let idx = game.players[local].entities[k];
            proof {
                assert(list[k as int] < g0.entities.core@.len());
            }
            let mut t = game.entities.timer[idx];
            t.mergeable = None;
            game.entities.timer.set(idx, t);
            proof {
                assert(list.take(k as int + 1) =~= list.take(k as int).push(idx));
                assert forall|i: int| 0 <= i < g0.entities.core@.len() implies #[trigger] game.entities.timer@[i] == if list.take(
                    k as int + 1,
                ).contains(i as usize) {
                    EntityTimer { mergeable: None, ..g0.entities.timer@[i] }
                } else {
                    g0.entities.timer@[i]
                } by {
                    vstd::seq_lib::lemma_seq_contains_after_push(list.take(k as int), idx, i as usize);
                }
            }
            k = k + 1;
        }
        proof {
            assert(list.take(count as int) =~= list);
            crate::game_solver::cache_entity::lemma_same_timers_keep_wf(*game, g0);
        }
    }

    /// The right button in debug: the local player's entities jump to the
    /// point, clamped onto the map, and the grid follows them.
    pub fn teleport(game: &mut Game, target: Point2D)
        requires
            old(game).wf(),
            old(game).settings.local_player < old(game).players@.len(),
        ensures
            final(game).wf(),
            final(game).entities.core == old(game).entities.core,
            final(game).entities.mass == old(game).entities.mass,
            final(game).players == old(game).players,
            final(game).settings == old(game).settings,
            forall|k: int| #![trigger old(game).players@[old(game).settings.local_player as int].entities@[k]]
                0 <= k < old(game).players@[old(game).settings.local_player as int].entities@.len() ==> {
                let i = old(game).players@[old(game).settings.local_player as int].entities@[k] as int;
                &&& final(game).entities.position@[i].x == clamp_spec(target.x as int, 0, old(game).map.max_spec().width as int)
                &&& final(game).entities.position@[i].y == clamp_spec(target.y as int, 0, old(game).map.max_spec().height as int)
                &&& recorded_in_place(*final(game), i)
            },
    {
        let ghost g0 = *game;
        let local = game.settings.local_player;
        let ghost list = game.players@[local as int].entities@;
        let count = game.players[local].entities.len();
        let max = game.map.max();
        let x0 = if target.x >= 0 { target.x } else { 0 };
        let x = if x0 <= max.width { x0 } else { max.width };
        let y0 = if target.y >= 0 { target.y } else { 0 };
        let y = if y0 <= max.height { y0 } else { max.height };
        let mut k: usize = 0;
        while k < count
            invariant
                g0.wf(),
                game.wf(),
                local == g0.settings.local_player,
                local < g0.players@.len(),
                list == g0.players@[local as int].entities@,
                count == list.len(),
                k <= count,
                max == g0.map.max_spec(),
                max.width >= 1,
                max.height >= 1,
                x == clamp_spec(target.x as int, 0, max.width as int),
                y == clamp_spec(target.y as int, 0, max.height as int),
                game.entities.core == g0.entities.core,
                game.entities.mass == g0.entities.mass,
                game.players == g0.players,
                game.settings == g0.settings,
                game.map.size == g0.map.size,
                game.map.size_field == g0.map.size_field,
                game.map.matrix_simple.size_field == g0.map.matrix_simple.size_field,
                forall|j: int| #![trigger list[j]] 0 <= j < k ==> game.entities.position@[list[j] as int] == (Point2D { x, y })
                    && recorded_in_place(*game, list[j] as int),
            decreases count - k,
        {
            let idx = game.players[local].entities[k];
            let ghost g_before = *game;
            game.entities.position.set(idx, Point2D { x, y });
            let ghost before = *game;
            proof {
                assert(game.map.max_spec() == max);
                lemma_map_covers(game.map, x as int, y as int);
                assert(game.entities.position@[idx as int] == Point2D { x, y });
            }
            game.map.matrix_simple.update_entity(&mut game.entities, idx);
            proof {
                assert(crate::game::positions_ok(before.entities, before.map));
                lemma_regrid_keeps_wf(*game, g_before);
                assert forall|j: int| #![trigger list[j]] 0 <= j < k + 1 implies game.entities.position@[list[j] as int] == (Point2D { x, y })
                    && recorded_in_place(*game, list[j] as int) by {
                    assert(game.entities.position@[list[j] as int] == before.entities.position@[list[j] as int]);
                    if list[j] != idx {
                        assert(recorded_in_place(g_before, list[j] as int));
                        assert(before.entities.index_matrix_simple == g_before.entities.index_matrix_simple);
                        assert(game.entities.index_matrix_simple@[list[j] as int] == before.entities.index_matrix_simple@[list[j] as int]);
                    }
                }
            }
            k = k + 1;
        }
        proof {
            assert forall|j: int| #![trigger list[j]] 0 <= j < list.len() implies {
                let i = list[j] as int;
                &&& game.entities.position@[i].x == clamp_spec(target.x as int, 0, g0.map.max_spec().width as int)
                &&& game.entities.position@[i].y == clamp_spec(target.y as int, 0, g0.map.max_spec().height as int)
                &&& recorded_in_place(*game, i)
            } by {
            }
        }
    }
    /// The Z key in debug: every entity of the local player gains a hundred
    /// units of displayed mass.
    pub fn add_mass(game: &mut Game)
        requires
            old(game).wf(),
            old(game).settings.local_player < old(game).players@.len(),
            forall|k: int| 0 <= k < old(game).players@[old(game).settings.local_player as int].entities@.len() ==>
                old(game).entities.mass@[#[trigger] old(game).players@[old(game).settings.local_player as int].entities@[k] as int]
                <= i64::MAX - 100_000_000,
        ensures
            final(game).wf(),
            *final(game) == (Game {
                entities: crate::entity::entities::Entities { mass: final(game).entities.mass, ..old(game).entities },
                ..*old(game)
            }),
            final(game).entities.mass@.len() == old(game).entities.mass@.len(),
            forall|i: int| 0 <= i < old(game).entities.core@.len() ==> #[trigger] final(game).entities.mass@[i] == if old(
                game,
            ).players@[old(game).settings.local_player as int].entities@.contains(i as usize) {
                old(game).entities.mass@[i] + 100_000_000
            } else {
                old(game).entities.mass@[i] as int
            },
    {
        let ghost g0 = *game;
        let local = game.settings.local_player;
        let ghost list = game.players@[local as int].entities@;
        let count = game.players[local].entities.len();
        let n = game.entities.core.len();
        let mut k: usize = 0;
        while k < count
            invariant
                g0.wf(),
                n == g0.entities.core@.len(),
                local == g0.settings.local_player,
                local < g0.players@.len(),
                list == g0.players@[local as int].entities@,
                count == list.len(),
                k <= count,
                *game == (Game {
                    entities: crate::entity::entities::Entities { mass: game.entities.mass, ..g0.entities },
                    ..g0
                }),
                game.entities.mass@.len() == g0.entities.mass@.len(),
                forall|j: int| 0 <= j < list.len() ==> g0.entities.mass@[#[trigger] list[j] as int] <= i64::MAX - 100_000_000,
                forall|i: int| 0 <= i < g0.entities.core@.len() ==> #[trigger] game.entities.mass@[i] == if list.take(
                    k as int,
                ).contains(i as usize) {
                    g0.entities.mass@[i] + 100_000_000
                } else {
                    g0.entities.mass@[i] as int
                },
            decreases count - k,
        {
            let idx = game.players[local].entities[k];
            proof {
                assert(list[k as int] < g0.entities.core@.len());
                assert(g0.entities.core@[idx as int].index.player == k);
                assert(!list.take(k as int).contains(idx)) by {
                    if list.take(k as int).contains(idx) {
                        let w = choose|w: int| 0 <= w < k && #[trigger] list.take(k as int)[w] == idx;
                        assert(list[w] == idx);
                        assert(g0.entities.core@[list[w] as int].index.player == w);
                    }
                }
                assert(game.entities.mass@[idx as int] == g0.entities.mass@[idx as int]);
            }
            let m = game.entities.mass[idx];
            game.entities.mass.set(idx, m + 100_000_000);
            proof {
                assert(list.take(k as int + 1) =~= list.take(k as int).push(idx));
                assert forall|i: int| 0 <= i < g0.entities.core@.len() implies #[trigger] game.entities.mass@[i] == if list.take(
                    k as int + 1,
                ).contains(i as usize) {
                    g0.entities.mass@[i] + 100_000_000
                } else {
                    g0.entities.mass@[i] as int
                } by {
                    vstd::seq_lib::lemma_seq_contains_after_push(list.take(k as int), idx, i as usize);
                }
            }
            k = k + 1;
        }
        proof {
            assert(list.take(count as int) =~= list);
            crate::game_solver::cache_entity::lemma_only_mass_changed_keeps_wf(*game, g0);
        }
    }
    /// The entities that a drag of the mouse from `a` to `b` selects, and
    /// their handles: the grid is walked cell by cell over the cells that
    /// the rectangle covers, and each record whose position lies inside the
    /// rectangle is taken.
    pub fn select(game: &Game, a: Point2D, b: Point2D) -> (r: (Vec<usize>, Vec<usize>))
        requires
            game.wf(),
            i32::MIN <= b.x - a.x <= i32::MAX,
            i32::MIN <= a.x - b.x <= i32::MAX,
            i32::MIN <= b.y - a.y <= i32::MAX,
            i32::MIN <= a.y - b.y <= i32::MAX,
        ensures
            r.0@.len() == r.1@.len(),
            forall|k: int| 0 <= k < r.0@.len() ==> {
                &&& (#[trigger] r.0@[k]) < game.entities.core@.len()
                &&& selected(*game, a, b, r.0@[k] as int)
                &&& r.1@[k] == game.entities.core@[r.0@[k] as int].index.main_ptr
            },
            forall|i: int, j: int| 0 <= i < j < r.0@.len() ==> #[trigger] r.0@[i] != #[trigger] r.0@[j],
            forall|i: int, j: int| 0 <= i < j < r.0@.len() ==> walk_before(
                *game,
                #[trigger] r.0@[i] as int,
                #[trigger] r.0@[j] as int,
            ),
            forall|e: int| 0 <= e < game.entities.core@.len() && #[trigger] selected(*game, a, b, e) ==> r.0@.contains(e as usize),
    {
        let ghost g = *game;
        let m = &game.map.matrix_simple;
        let rect = Rect::from_points(a, b);
        let sf = m.size_field as i64;
        let lx = rect.origin.x as i64;
        let ly = rect.origin.y as i64;
        let hx = rect.max_x() as i64;
        let hy = rect.max_y() as i64;
        let x0 = (if lx >= 0 { lx } else { 0 }) / sf;
        let y0 = (if ly >= 0 { ly } else { 0 }) / sf;
        let qx = if hx >= 0 { hx / sf } else { -((-hx) / sf) };
        let qy = if hy >= 0 { hy / sf } else { -((-hy) / sf) };
        let wx = m.size.width as i64 - 1;
        let wy = m.size.height as i64 - 1;
        let x1 = if qx + 1 <= wx { qx + 1 } else { wx };
        let y1 = if qy + 1 <= wy { qy + 1 } else { wy };
        let mut sel: Vec<usize> = Vec::new();
        let mut handles: Vec<usize> = Vec::new();
        let ghost empty = Seq::<usize>::empty();
        let mut x: i64 = x0;
        proof {
            assert(game.map.matrix_simple.consistent(game.entities.index_matrix_simple@));
        }
        while x <= x1
            invariant
                g == *game,
                game.wf(),
                m == &game.map.matrix_simple,
                sf == m.size_field,
                sf == 10000,
                x0 == sel_first(min_int(a.x as int, b.x as int), sf as int),
                y0 == sel_first(min_int(a.y as int, b.y as int), sf as int),
                x1 == sel_last(max_int(a.x as int, b.x as int), sf as int, m.size.width as int),
                y1 == sel_last(max_int(a.y as int, b.y as int), sf as int, m.size.height as int),
                rect.origin.x == min_int(a.x as int, b.x as int),
                rect.origin.y == min_int(a.y as int, b.y as int),
                rect.max_x_spec() == max_int(a.x as int, b.x as int),
                rect.max_y_spec() == max_int(a.y as int, b.y as int),
                rect.fits(),
                0 <= x0 <= x,
                x <= x1 + 1 || x == x0,
                selection_so_far(g, a, b, sel@, handles@, x as int, y0 as int, empty),
                empty == Seq::<usize>::empty(),
            decreases x1 + 1 - x,
        {
            let mut y: i64 = y0;
            while y <= y1
                invariant
                    g == *game,
                    game.wf(),
                    m == &game.map.matrix_simple,
                    sf == m.size_field,
                    x0 == sel_first(min_int(a.x as int, b.x as int), sf as int),
                    y0 == sel_first(min_int(a.y as int, b.y as int), sf as int),
                    x1 == sel_last(max_int(a.x as int, b.x as int), sf as int, m.size.width as int),
                    y1 == sel_last(max_int(a.y as int, b.y as int), sf as int, m.size.height as int),
                    rect.origin.x == min_int(a.x as int, b.x as int),
                    rect.origin.y == min_int(a.y as int, b.y as int),
                    rect.max_x_spec() == max_int(a.x as int, b.x as int),
                    rect.max_y_spec() == max_int(a.y as int, b.y as int),
                    rect.fits(),
                    0 <= x0 <= x <= x1,
                    0 <= y0 <= y,
                    y <= y1 + 1 || y == y0,
                    selection_so_far(g, a, b, sel@, handles@, x as int, y as int, empty),
                    empty == Seq::<usize>::empty(),
                decreases y1 + 1 - y,
            {
                let keys = m.cell_keys(x as usize, y as usize);
                let mut t: usize = 0;
                proof {
                    assert(keys@.take(0) =~= empty);
                }
                while t < keys.len()
                    invariant
                        g == *game,
                        game.wf(),
                        m == &game.map.matrix_simple,
                        rect.origin.x == min_int(a.x as int, b.x as int),
                        rect.origin.y == min_int(a.y as int, b.y as int),
                        rect.max_x_spec() == max_int(a.x as int, b.x as int),
                        rect.max_y_spec() == max_int(a.y as int, b.y as int),
                        rect.fits(),
                        x0 == sel_first(min_int(a.x as int, b.x as int), m.size_field as int),
                        y0 == sel_first(min_int(a.y as int, b.y as int), m.size_field as int),
                        x1 == sel_last(max_int(a.x as int, b.x as int), m.size_field as int, m.size.width as int),
                        y1 == sel_last(max_int(a.y as int, b.y as int), m.size_field as int, m.size.height as int),
                        0 <= x0 <= x <= x1,
                        0 <= y0 <= y <= y1,
                        t <= keys@.len(),
                        forall|i: int, j: int| 0 <= i < j < keys@.len() ==> keys@[i] < keys@[j],
                        forall|k: usize| m.cell(x as int, y as int).contains_key(k) <==> keys@.contains(k),
                        selection_so_far(g, a, b, sel@, handles@, x as int, y as int, keys@.take(t as int)),
                    decreases keys@.len() - t,
                {
                    let z = keys[t];
                    proof {
                        assert(keys@.contains(z));
                    }
                    let c = m.cell_content(x as usize, y as usize, z);
                    let ghost done = keys@.take(t as int);
                    let ghost done2 = keys@.take(t as int + 1);
                    proof {
                        assert(done2 =~= done.push(z));
                        assert(!done.contains(z)) by {
                            if done.contains(z) {
                                let w = choose|w: int| 0 <= w < done.len() && #[trigger] done[w] == z;
                                assert(keys@[w] < keys@[t as int]);
                            }
                        }
                        assert(g.entities.index_matrix_simple@[c.entity as int] == crate::entity::index::MatrixIndex {
                            x: x as usize,
                            y: y as usize,
                            z,
                        });
                        assert forall|e: int| 0 <= e < g.entities.core@.len() implies #[trigger] walked(g, e, x as int, y as int, done2)
                            == (walked(g, e, x as int, y as int, done) || e == c.entity) by {
                            vstd::seq_lib::lemma_seq_contains_after_push(done, z, g.entities.index_matrix_simple@[e].z);
                            let ix = g.entities.index_matrix_simple@[e];
                            if ix.x == x && ix.y == y && ix.z == z {
                                assert(m.cell(x as int, y as int)[z].entity == e);
                            }
                        }
                    }
                    if rect.contains(c.position) {
                        let ghost old_sel = sel@;
                        proof {
                            assert(!old_sel.contains(c.entity)) by {
                                if old_sel.contains(c.entity) {
                                    let w = choose|w: int| 0 <= w < old_sel.len() && #[trigger] old_sel[w] == c.entity;
                                    assert(walked(g, old_sel[w] as int, x as int, y as int, done));
                                }
                            }
                        }
                        sel.push(c.entity);
                        handles.push(game.entities.core[c.entity].index.main_ptr);
                        proof {
                            assert forall|i: int, j: int| 0 <= i < j < sel@.len() implies #[trigger] sel@[i] != #[trigger] sel@[j] by {
                                if j == sel@.len() - 1 {
                                    assert(old_sel[i] == sel@[i]);
                                }
                            }
                            assert forall|i: int, j: int| 0 <= i < j < sel@.len() implies walk_before(
                                g,
                                #[trigger] sel@[i] as int,
                                #[trigger] sel@[j] as int,
                            ) by {
                                assert(sel@[i] == old_sel[i]);
                                if j == sel@.len() - 1 {
                                    let ix = g.entities.index_matrix_simple@[old_sel[i] as int];
                                    assert(walked(g, old_sel[i] as int, x as int, y as int, done));
                                    if ix.x == x && ix.y == y {
                                        let w = choose|w: int| 0 <= w < done.len() && #[trigger] done[w] == ix.z;
                                        assert(keys@[w] < keys@[t as int]);
                                    }
                                } else {
                                    assert(sel@[j] == old_sel[j]);
                                }
                            }
                            assert forall|e: int| 0 <= e < g.entities.core@.len() && selected(g, a, b, e) && #[trigger] walked(g, e, x as int, y as int, done2)
                                implies sel@.contains(e as usize) by {
                                if e == c.entity {
                                    assert(sel@[sel@.len() - 1] == e as usize);
                                } else {
                                    assert(old_sel.contains(e as usize));
                                    let w = choose|w: int| 0 <= w < old_sel.len() && #[trigger] old_sel[w] == e as usize;
                                    assert(sel@[w] == e as usize);
                                }
                            }
                        }
                    } else {
                        proof {
                            assert(!selected(g, a, b, c.entity as int));
                        }
                    }
                    t = t + 1;
                }
                proof {
                    assert(keys@.take(keys@.len() as int) =~= keys@);
                    assert forall|e: int| 0 <= e < g.entities.core@.len() && selected(g, a, b, e) implies #[trigger] walked(g, e, x as int, y as int, keys@)
                        == walked(g, e, x as int, y as int + 1, empty) by {
                        let ix = g.entities.index_matrix_simple@[e];
                        if ix.x == x && ix.y == y {
                            assert(m.cell(x as int, y as int).contains_key(ix.z));
                        }
                    }
                    lemma_walk_moves(g, a, b, sel@, handles@, x as int, y as int, keys@, x as int, y as int + 1, empty);
                }
                y = y + 1;
            }
            proof {
                assert forall|e: int| 0 <= e < g.entities.core@.len() && selected(g, a, b, e) implies #[trigger] walked(g, e, x as int, y as int, empty)
                    == walked(g, e, x as int + 1, y0 as int, empty) by {}
                lemma_walk_moves(g, a, b, sel@, handles@, x as int, y as int, empty, x as int + 1, y0 as int, empty);
            }
            x = x + 1;
        }
        proof {
            assert forall|e: int| 0 <= e < g.entities.core@.len() && #[trigger] selected(g, a, b, e) implies sel@.contains(e as usize) by {
                assert(walked(g, e, x as int, y0 as int, empty));
            }
        }
        (sel, handles)
    }
    /// A drag in the editor: with a corner of the selection set, the
    /// entities between it and `mouse` become the selection, with their
    /// handles.
    pub fn update_selection(game: &mut Game, mouse: Point2D)
        requires
            old(game).wf(),
            old(game).editor_state.selection matches Some(c) ==> {
                &&& i32::MIN <= mouse.x - c.x <= i32::MAX
                &&& i32::MIN <= c.x - mouse.x <= i32::MAX
                &&& i32::MIN <= mouse.y - c.y <= i32::MAX
                &&& i32::MIN <= c.y - mouse.y <= i32::MAX
            },
        ensures
            final(game).wf(),
            *final(game) == (Game { editor_state: final(game).editor_state, ..*old(game) }),
            old(game).editor_state.selection is None ==> final(game).editor_state == old(game).editor_state,
            old(game).editor_state.selection matches Some(c) ==> {
                &&& final(game).editor_state.selection == old(game).editor_state.selection
                &&& (final(game).editor_state.selected matches Some(s) && final(game).editor_state.selected_atomic matches Some(h)
                    && ({
                    &&& s@.len() == h@.len()
                    &&& forall|k: int| 0 <= k < s@.len() ==> {
                        &&& (#[trigger] s@[k]) < old(game).entities.core@.len()
                        &&& selected(*old(game), c, mouse, s@[k] as int)
                        &&& h@[k] == old(game).entities.core@[s@[k] as int].index.main_ptr
                    }
                    &&& forall|i: int, j: int| 0 <= i < j < s@.len() ==> #[trigger] s@[i] != #[trigger] s@[j]
                    &&& forall|i: int, j: int| 0 <= i < j < s@.len() ==> walk_before(
                        *old(game),
                        #[trigger] s@[i] as int,
                        #[trigger] s@[j] as int,
                    )
                    &&& forall|e: int| 0 <= e < old(game).entities.core@.len() && #[trigger] selected(*old(game), c, mouse, e)
                        ==> s@.contains(e as usize)
                }))
            },
    {
        match game.editor_state.selection {
            Some(corner) => {
                let (s, h) = Self::select(game, corner, mouse);
                game.editor_state.selected = Some(s);
                game.editor_state.selected_atomic = Some(h);
            },
            None => {},
        }
    }

    /// The Delete key in the editor: the selected entities are deleted,
    /// through their handles, and the selection is forgotten.
    #[verifier::spinoff_prover]
    pub fn delete_selected(game: &mut Game)
        requires
            old(game).wf(),
            old(game).editor_state.selected is Some ==> (old(game).editor_state.selected_atomic matches Some(h) && handles_ok(
                old(game).entities,
                h@,
            )),
        ensures
            final(game).wf(),
            old(game).editor_state.selected is None ==> *final(game) == *old(game),
            old(game).editor_state.selected is Some ==> {
                let h = old(game).editor_state.selected_atomic.unwrap();
                &&& final(game).editor_state.selected is None
                &&& final(game).editor_state.selected_atomic is None
                &&& final(game).entities.core@.len() == old(game).entities.core@.len() - h@.len()
                &&& forall|k: int| 0 <= k < h@.len() ==> final(game).entities.main_ptrs@[#[trigger] h@[k] as int] is None
                &&& forall|x: int| 0 <= x < old(game).entities.main_ptrs@.len() && old(game).entities.main_ptrs@[x] is Some
                    && !h@.contains(x as usize) ==> #[trigger] follows(*final(game), *old(game), x)
            },
    {
        if game.editor_state.selected.is_some() {
            let handles = game.editor_state.selected_atomic.take().unwrap();
            let ghost g1 = *game;
            proof {
                assert(g1.entities == old(game).entities);
            }
            CacheGameSolver::delete_handles(game, handles);
            game.editor_state.selected_atomic = None;
            game.editor_state.selected = None;
            proof {
                assert forall|x: int| 0 <= x < old(game).entities.main_ptrs@.len() && old(game).entities.main_ptrs@[x] is Some
                    && !old(game).editor_state.selected_atomic.unwrap()@.contains(x as usize) implies #[trigger] follows(*game, *old(game), x) by {
                    assert(follows(*game, g1, x));
                }
            }
        }
    }

    /// A click in the first tab of the editor: unless the pointer is over
    /// the interface, a copy of the entity being edited is placed at
    /// `position`.
    pub fn place_entity(game: &mut Game, position: Point2D)
        requires
            old(game).wf(),
            old(game).editor_state.tab == 0 && !old(game).editor_state.hovered && old(game).editor_state.new_entity_on_click
                ==> {
                &&& old(game).editor_state.new_entity.player < old(game).players@.len()
                &&& old(game).editor_state.new_entity.characteristics.mass_min
                    <= old(game).editor_state.new_entity.characteristics.mass_max
                &&& old(game).entities.core@.len() < usize::MAX
                &&& old(game).entities.main_ptrs@.len() < usize::MAX
                &&& old(game).id_generator.can_generate()
            },
        ensures
            final(game).wf(),
            !(old(game).editor_state.tab == 0 && !old(game).editor_state.hovered && old(game).editor_state.new_entity_on_click)
                ==> *final(game) == *old(game),
            old(game).editor_state.tab == 0 && !old(game).editor_state.hovered && old(game).editor_state.new_entity_on_click
                ==> ({
                let n = old(game).entities.core@.len() as int;
                let ne = old(game).editor_state.new_entity;
                let e = final(game).entities;
                &&& e.core@.len() == n + 1
                &&& e.core@[n].player == ne.player
                &&& same_characteristics(e.core@[n].characteristics, ne.characteristics)
                &&& e.core@[n].color == ne.color
                &&& e.core@[n].index.texture == ne.texture
                &&& e.timer@[n] == ne.timer
                &&& e.mass@[n] == clamp_spec(ne.mass as int, ne.characteristics.mass_min as int, ne.characteristics.mass_max as int)
                &&& e.position@[n].x == clamp_spec(position.x as int, 0, old(game).map.max_spec().width as int)
                &&& e.position@[n].y == clamp_spec(position.y as int, 0, old(game).map.max_spec().height as int)
            }),
    {
        if game.editor_state.tab == 0 && !game.editor_state.hovered && game.editor_state.new_entity_on_click {
            let ne = &game.editor_state.new_entity;
            let info = EntityInfo {
                player: ne.player,
                position,
                mass: ne.mass,
                color: ne.color,
                texture: ne.texture,
                timer: ne.timer,
                characteristics: ne.characteristics.duplicate(),
            };
            game.new_entity(info);
        }
    }

    /// The first tab of the editor follows the pointer: the entity being
    /// edited moves to `position` and is validated against the game.
    pub fn follow_pointer(game: &mut Game, position: Point2D)
        requires
            old(game).wf(),
            old(game).players@.len() > 0,
            characteristics_validatable(old(game).editor_state.new_entity.characteristics),
        ensures
            final(game).wf(),
            *final(game) == (Game { editor_state: final(game).editor_state, ..*old(game) }),
            ({
                let ne = final(game).editor_state.new_entity;
                &&& ne.position.x == min_int(max_int(position.x as int, 0), old(game).map.max_spec().width as int)
                &&& ne.position.y == min_int(max_int(position.y as int, 0), old(game).map.max_spec().height as int)
                &&& ne.player == if old(game).editor_state.new_entity.player >= old(game).players@.len() {
                    (old(game).players@.len() - 1) as usize
                } else {
                    old(game).editor_state.new_entity.player
                }
            }),
    {
        let mut info = EntityInfo::default();
        std::mem::swap(&mut info, &mut game.editor_state.new_entity);
        info.position = position;
        info.validate(game);
        game.editor_state.new_entity = info;
    }

    /// Where the local player's entities head: the pointer's point in the
    /// world, or nowhere (`None`) while a menu is open.
    pub fn point_to(game: &mut Game, target: Option<Point2D>)
        requires
            old(game).wf(),
            old(game).settings.local_player < old(game).players@.len(),
        ensures
            final(game).wf(),
            *final(game) == (Game {
                entities: crate::entity::entities::Entities { direction: final(game).entities.direction, ..old(game).entities },
                ..*old(game)
            }),
            final(game).entities.direction@.len() == old(game).entities.direction@.len(),
            forall|i: int| 0 <= i < old(game).entities.core@.len() ==> #[trigger] final(game).entities.direction@[i] == if old(
                game,
            ).players@[old(game).settings.local_player as int].entities@.contains(i as usize) {
                target
            } else {
                old(game).entities.direction@[i]
            },
    {
        let ghost g0 = *game;
        let local = game.settings.local_player;
        let ghost list = game.players@[local as int].entities@;
        let count = game.players[local].entities.len();
        let n = game.entities.core.len();
        let mut k: usize = 0;
        while k < count
            invariant
                g0.wf(),
                n == g0.entities.core@.len(),
                local == g0.settings.local_player,
                local < g0.players@.len(),
                list == g0.players@[local as int].entities@,
                count == list.len(),
                k <= count,
                *game == (Game {
                    entities: crate::entity::entities::Entities { direction: game.entities.direction, ..g0.entities },
                    ..g0
                }),
                game.entities.direction@.len() == g0.entities.direction@.len(),
                forall|i: int| 0 <= i < g0.entities.core@.len() ==> #[trigger] game.entities.direction@[i] == if list.take(
                    k as int,
                ).contains(i as usize) {
                    target
                } else {
                    g0.entities.direction@[i]
                },
            decreases count - k,
        {
            let idx = game.players[local].entities[k];
            proof {
                assert(list[k as int] < g0.entities.core@.len());
            }
            game.entities.direction.set(idx, target);
            proof {
                assert(list.take(k as int + 1) =~= list.take(k as int).push(idx));
                assert forall|i: int| 0 <= i < g0.entities.core@.len() implies #[trigger] game.entities.direction@[i] == if list.take(
                    k as int + 1,
                ).contains(i as usize) {
                    target
                } else {
                    g0.entities.direction@[i]
                } by {
                    vstd::seq_lib::lemma_seq_contains_after_push(list.take(k as int), idx, i as usize);
                }
            }
            k = k + 1;
        }
        proof {
            assert(list.take(count as int) =~= list);
            lemma_same_structure_keeps_wf(*game, g0);
        }
    }

    /// The R key in debug: every entity of the local player is brought back
    /// to the least mass its characteristics allow.
    pub fn reset_masses(game: &mut Game)
        requires
            old(game).wf(),
            old(game).settings.local_player < old(game).players@.len(),
        ensures
            final(game).wf(),
            *final(game) == (Game {
                entities: crate::entity::entities::Entities { mass: final(game).entities.mass, ..old(game).entities },
                ..*old(game)
            }),
            final(game).entities.mass@.len() == old(game).entities.mass@.len(),
            forall|i: int| 0 <= i < old(game).entities.core@.len() ==> #[trigger] final(game).entities.mass@[i] == if old(
                game,
            ).players@[old(game).settings.local_player as int].entities@.contains(i as usize) {
                old(game).entities.core@[i].characteristics.mass_min
            } else {
                old(game).entities.mass@[i]
            },
    {
        let ghost g0 = *game;
        let local = game.settings.local_player;
        let ghost list = game.players@[local as int].entities@;
        let count = game.players[local].entities.len();
        let n = game.entities.core.len();
        let mut k: usize = 0;
        while k < count
            invariant
                g0.wf(),
                n == g0.entities.core@.len(),
                local == g0.settings.local_player,
                local < g0.players@.len(),
                list == g0.players@[local as int].entities@,
                count == list.len(),
                k <= count,
                *game == (Game {
                    entities: crate::entity::entities::Entities { mass: game.entities.mass, ..g0.entities },
                    ..g0
                }),
                game.entities.mass@.len() == g0.entities.mass@.len(),
                forall|i: int| 0 <= i < g0.entities.core@.len() ==> #[trigger] game.entities.mass@[i] == if list.take(
                    k as int,
                ).contains(i as usize) {
                    g0.entities.core@[i].characteristics.mass_min
                } else {
                    g0.entities.mass@[i]
                },
            decreases count - k,
        {
            let idx = game.players[local].entities[k];
            proof {
                assert(list[k as int] < g0.entities.core@.len());
            }
            let least = game.entities.core[idx].characteristics.mass_min;
            game.entities.mass.set(idx, least);
            proof {
                assert(list.take(k as int + 1) =~= list.take(k as int).push(idx));
                assert forall|i: int| 0 <= i < g0.entities.core@.len() implies #[trigger] game.entities.mass@[i] == if list.take(
                    k as int + 1,
                ).contains(i as usize) {
                    g0.entities.core@[i].characteristics.mass_min
                } else {
                    g0.entities.mass@[i]
                } by {
                    vstd::seq_lib::lemma_seq_contains_after_push(list.take(k as int), idx, i as usize);
                }
            }
            k = k + 1;
        }
        proof {
            assert(list.take(count as int) =~= list);
            crate::game_solver::cache_entity::lemma_only_mass_changed_keeps_wf(*game, g0);
        }
    }

    /// The D key: play goes to the editor and the editor back to play; the
    /// main menu stays.
    pub fn switch_mode(game: &mut Game)
        ensures
            final(game).state == match old(game).state {
                GameState::Playing => GameState::Editor,
                GameState::Editor => GameState::Playing,
                GameState::MainMenu => GameState::MainMenu,
            },
            *final(game) == (Game { state: final(game).state, ..*old(game) }),
    {
        game.state = match game.state {
            GameState::Playing => GameState::Editor,
            GameState::Editor => GameState::Playing,
            GameState::MainMenu => GameState::MainMenu,
        };
    }

    /// A press of the left button on the map in the editor: in the
    /// selection tabs (1 and 2) what was selected is dropped and a new
    /// selection starts at `mouse`.
    pub fn start_selection(game: &mut Game, mouse: Point2D)
        ensures
            *final(game) == (Game { editor_state: final(game).editor_state, ..*old(game) }),
            old(game).editor_state.tab == 1 || old(game).editor_state.tab == 2 ==> final(game).editor_state == (EditorState {
                selected: None,
                selection: Some(mouse),
                ..old(game).editor_state
            }),
            !(old(game).editor_state.tab == 1 || old(game).editor_state.tab == 2) ==> final(game).editor_state
                == old(game).editor_state,
    {
        if game.editor_state.tab == 1 || game.editor_state.tab == 2 {
            game.editor_state.selected = None;
            game.editor_state.selection = Some(mouse);
        }
    }

    /// The end of a frame of the editor: the pointer is no longer counted
    /// as hovering the interface until the interface says so again.
    pub fn end_editor_frame(game: &mut Game)
        ensures
            *final(game) == (Game {
                editor_state: EditorState { hovered: false, ..old(game).editor_state },
                ..*old(game)
            }),
    {
        game.editor_state.hovered = false;
    }

    /// A release of the left button in the editor: the selection ends, and
    /// what it selected stays selected.
    pub fn end_selection(game: &mut Game)
        ensures
            *final(game) == (Game {
                editor_state: EditorState { selection: None, ..old(game).editor_state },
                ..*old(game)
            }),
    {
        game.editor_state.selection = None;
    }

    /// The W key, for one of the local player's entities and one piece of
    /// food: an entity heavier than the food settings' minimum takes their
    /// mass change and a piece of food is placed at `offset` from it (the
    /// offset is computed on real numbers beside it): player 0, the food's
    /// mass, timers and characteristics, the entity's texture, and the
    /// entity's, the custom or one of the listed colours. A lighter entity
    /// throws nothing.
    pub fn throw_food(game: &mut Game, entity: usize, offset: Vector2D)
        requires
            old(game).wf(),
            entity < old(game).entities.core@.len(),
            i32::MIN <= old(game).entities.position@[entity as int].x + offset.x <= i32::MAX,
            i32::MIN <= old(game).entities.position@[entity as int].y + offset.y <= i32::MAX,
            old(game).entities.mass@[entity as int] > old(game).settings.local_player_food_settings.mass_minimum_to_throw ==> {
                let f = old(game).settings.local_player_food_settings;
                &&& 0 < old(game).players@.len()
                &&& f.characteristics_entity_thrown.mass_min <= f.characteristics_entity_thrown.mass_max
                &&& f.color matches ThrownEntityColor::Random(v) ==> v@.len() > 0
                &&& old(game).entities.core@.len() < usize::MAX
                &&& old(game).entities.main_ptrs@.len() < usize::MAX
                &&& old(game).id_generator.can_generate()
            },
        ensures
            final(game).wf(),
            old(game).entities.mass@[entity as int] <= old(game).settings.local_player_food_settings.mass_minimum_to_throw
                ==> *final(game) == *old(game),
            old(game).entities.mass@[entity as int] > old(game).settings.local_player_food_settings.mass_minimum_to_throw
                ==> throw_result(*final(game), *old(game), entity as int, offset),
    {
        let minimum = game.settings.local_player_food_settings.mass_minimum_to_throw;
        if game.entities.mass[entity] <= minimum {
            return;
        }
        let ghost g0 = *game;
        let added = game.settings.local_player_food_settings.mass_self_added;
        game.entities.send_buffer(entity, EntityAction::AddMass(added));
        proof {
            crate::game_solver::cache_entity::lemma_only_buffers_keeps_wf(*game, g0);
        }
        let f = &game.settings.local_player_food_settings;
        let p = game.entities.position[entity];
        let color: EntityColor = match &f.color {
            ThrownEntityColor::Same => game.entities.core[entity].color,
            ThrownEntityColor::Custom(k) => *k,
            ThrownEntityColor::Random(v) => {
                let i = random_index(v.len());
                v[i]
            },
        };
        let info = EntityInfo {
            player: 0,
            position: Point2D::new(p.x + offset.x, p.y + offset.y),
            mass: f.mass_entity_thrown,
            color,
            texture: game.entities.core[entity].index.texture,
            timer: f.timer,
            characteristics: f.characteristics_entity_thrown.duplicate(),
        };
        game.new_entity(info);
    }

    /// The space bar, for one of the local player's entities: an entity
    /// heavier than twenty units of displayed mass gives half of its mass
    /// (rounded down) to a new entity of player 1 placed at `offset` from
    /// it (the offset is computed on real numbers beside it), with its
    /// characteristics, colour and texture and timers that keep the two
    /// apart for a while; it keeps the other half and cannot merge for a
    /// thousand updates. A lighter entity does not split.
    pub fn split_entity(game: &mut Game, entity: usize, offset: Vector2D)
        requires
            old(game).wf(),
            entity < old(game).entities.core@.len(),
            i32::MIN <= old(game).entities.position@[entity as int].x + offset.x <= i32::MAX,
            i32::MIN <= old(game).entities.position@[entity as int].y + offset.y <= i32::MAX,
            old(game).entities.mass@[entity as int] > 20_000_000 ==> {
                let ch = old(game).entities.core@[entity as int].characteristics;
                &&& 1 < old(game).players@.len()
                &&& ch.mass_min <= ch.mass_max
                &&& old(game).entities.core@.len() < usize::MAX
                &&& old(game).entities.main_ptrs@.len() < usize::MAX
                &&& old(game).id_generator.can_generate()
            },
        ensures
            final(game).wf(),
            old(game).entities.mass@[entity as int] <= 20_000_000 ==> *final(game) == *old(game),
            old(game).entities.mass@[entity as int] > 20_000_000 ==> split_result(*final(game), *old(game), entity as int, offset),
    {
        let m = game.entities.mass[entity];
        if m <= 20_000_000 {
            return;
        }
        let ghost g0 = *game;
        let p = game.entities.position[entity];
        let c = &game.entities.core[entity];
        let info = EntityInfo {
            player: 1,
            position: Point2D::new(p.x + offset.x, p.y + offset.y),
            mass: m / 2,
            color: c.color,
            texture: c.index.texture,
            timer: EntityTimer {
                collision: Some(1),
                collision_ratio: Some(10),
                mergeable: Some(1_000),
                inertia: Some(20),
                lifetime_left: None,
            },
            characteristics: c.characteristics.duplicate(),
        };
        let mut t = game.entities.timer[entity];
        t.mergeable = Some(1_000);
        game.entities.timer.set(entity, t);
        game.entities.mass.set(entity, m / 2);
        proof {
            lemma_same_structure_keeps_wf(*game, g0);
        }
        game.new_entity(info);
    }


    /// The space bar: the local player's entities are taken in list order,
    /// and each heavier than twenty units splits (see `split_entity`) while
    /// the local list is shorter than the cap on splits; entry `k` places
    /// its piece at `offsets[k]` from it (computed on real numbers beside
    /// it). The pieces follow one another at the end of the entities.
    #[verifier::spinoff_prover]
    pub fn split_local(game: &mut Game, offsets: &Vec<Vector2D>)
        requires
            split_static(*old(game), offsets@),
        ensures
            final(game).wf(),
            final(game).entities.core@.len() == old(game).entities.core@.len() + splits_before(
                *old(game),
                local_list(*old(game)).len(),
            ),
            forall|k: int| 0 <= k < local_list(*old(game)).len() ==> #[trigger] split_effect(
                *final(game),
                *old(game),
                offsets@,
                k,
            ),
            local_list(*final(game)).len() == local_list(*old(game)).len() + if old(game).settings.local_player == 1 {
                splits_before(*old(game), local_list(*old(game)).len()) as int
            } else {
                0
            },
            old(game).settings.local_player == 1 ==> local_list(*final(game)).len() <= max_int(
                local_list(*old(game)).len() as int,
                old(game).settings.max_split as int,
            ),
            forall|y: int| 0 <= y < old(game).entities.core@.len() && !local_list(*old(game)).contains(y as usize)
                ==> #[trigger] final(game).entities.mass@[y] == old(game).entities.mass@[y]
                && final(game).entities.timer@[y] == old(game).entities.timer@[y],
            forall|y: int| 0 <= y < old(game).entities.core@.len() ==> #[trigger] final(game).entities.position@[y]
                == old(game).entities.position@[y] && final(game).entities.core@[y] == old(game).entities.core@[y],
    {
        let ghost g0 = *game;
        let local = game.settings.local_player;
        let n0 = game.players[local].entities.len();
        proof {
            lemma_split_start(g0, offsets@);
        }
        let mut i: usize = 0;
        while i < n0
            invariant
                split_static(g0, offsets@),
                split_done(*game, g0, offsets@, i as int),
                local == g0.settings.local_player,
                n0 == local_list(g0).len(),
                i <= n0,
            decreases n0 - i,
        {
            proof {
                lemma_split_turn(*game, g0, offsets@, i as int);
            }
            let ghost before = *game;
            let cap = game.players[local].entities.len() < game.settings.max_split;
            if cap {
                let e = game.players[local].entities[i];
                Self::split_entity(game, e, offsets[i]);
            }
            proof {
                lemma_split_step(before, *game, g0, offsets@, i as int, cap);
            }
            i = i + 1;
        }
        proof {
            lemma_split_end(*game, g0, offsets@);
            assert(g0 == *old(game));
        }
    }

    /// The W key, for one of the local player's entities: `count` pieces of
    /// food thrown one after the other (see `throw_food`), all placed at
    /// `offset` from it; none when `count` is not positive.
    fn throw_from(game: &mut Game, entity: usize, offset: Vector2D, count: i32)
        requires
            old(game).wf(),
            entity < old(game).entities.core@.len(),
            i32::MIN <= old(game).entities.position@[entity as int].x + offset.x <= i32::MAX,
            i32::MIN <= old(game).entities.position@[entity as int].y + offset.y <= i32::MAX,
            old(game).entities.mass@[entity as int] > old(game).settings.local_player_food_settings.mass_minimum_to_throw ==> {
                let f = old(game).settings.local_player_food_settings;
                let r = if count > 0 { count as int } else { 0 };
                &&& 0 < old(game).players@.len()
                &&& f.characteristics_entity_thrown.mass_min <= f.characteristics_entity_thrown.mass_max
                &&& f.color matches ThrownEntityColor::Random(v) ==> v@.len() > 0
                &&& old(game).entities.core@.len() + r < usize::MAX
                &&& old(game).entities.main_ptrs@.len() + r < usize::MAX
                &&& old(game).id_generator.next + r < usize::MAX
            },
        ensures
            final(game).wf(),
            old(game).entities.mass@[entity as int] <= old(game).settings.local_player_food_settings.mass_minimum_to_throw
                ==> *final(game) == *old(game),
            old(game).entities.mass@[entity as int] > old(game).settings.local_player_food_settings.mass_minimum_to_throw
                ==> throws_result(*final(game), *old(game), entity as int, offset, if count > 0 { count as nat } else { 0 }),
    {
        let minimum = game.settings.local_player_food_settings.mass_minimum_to_throw;
        if game.entities.mass[entity] <= minimum {
            return;
        }
        let ghost g0 = *game;
        let ghost f = g0.settings.local_player_food_settings;
        proof {
            assert(g0.entities.buffer@[entity as int]@ =~= g0.entities.buffer@[entity as int]@ + Seq::new(
                0,
                |t: int| EntityAction::AddMass(f.mass_self_added),
            ));
            assert(g0.players@[0].entities@ =~= g0.players@[0].entities@ + Seq::new(
                0,
                |t: int| (g0.entities.core@.len() + t) as usize,
            ));
        }
        let mut t: i32 = 0;
        while t < count
            invariant
                0 <= t,
                count > 0 ==> t <= count,
                count <= 0 ==> t == 0,
                game.wf(),
                throws_result(*game, g0, entity as int, offset, t as nat),
                g0.wf(),
                f == g0.settings.local_player_food_settings,
                entity < g0.entities.core@.len(),
                i32::MIN <= g0.entities.position@[entity as int].x + offset.x <= i32::MAX,
                i32::MIN <= g0.entities.position@[entity as int].y + offset.y <= i32::MAX,
                g0.entities.mass@[entity as int] > f.mass_minimum_to_throw,
                0 < g0.players@.len(),
                f.characteristics_entity_thrown.mass_min <= f.characteristics_entity_thrown.mass_max,
                f.color matches ThrownEntityColor::Random(v) ==> v@.len() > 0,
                count > 0 ==> g0.entities.core@.len() + count < usize::MAX,
                count > 0 ==> g0.entities.main_ptrs@.len() + count < usize::MAX,
                count > 0 ==> g0.id_generator.next + count < usize::MAX,
            decreases count - t,
        {
            let ghost before = *game;
            proof {
                assert(before.entities.mass@[entity as int] == g0.entities.mass@[entity as int]);
                assert(before.entities.position@[entity as int] == g0.entities.position@[entity as int]);
            }
            Self::throw_food(game, entity, offset);
            proof {
                lemma_throws_step(*game, before, g0, entity as int, offset, t as nat);
            }
            t = t + 1;
        }
    }

    /// The W key held: each entry of the local player's list, in order,
    /// throws the throw ratio's number of pieces of food (see `throw_food`)
    /// when it weighs more than the food settings' minimum; entry `k`
    /// places its pieces at `offsets[k]` from it (computed on real numbers
    /// beside it). The pieces follow one another at the end of the
    /// entities, and the masses change only through the buffers.
    pub fn throw_local(game: &mut Game, offsets: &Vec<Vector2D>)
        requires
            throw_static(*old(game), offsets@),
        ensures
            final(game).wf(),
            final(game).settings == old(game).settings,
            final(game).entities.core@.len() == old(game).entities.core@.len() + throws_before(
                *old(game),
                local_list(*old(game)).len(),
            ) * throw_pieces(*old(game)),
            forall|k: int| 0 <= k < local_list(*old(game)).len() ==> #[trigger] throw_effect(
                *final(game),
                *old(game),
                offsets@,
                k,
            ),
            forall|y: int| 0 <= y < old(game).entities.core@.len() ==> #[trigger] final(game).entities.mass@[y]
                == old(game).entities.mass@[y],
            forall|y: int| 0 <= y < old(game).entities.core@.len() ==> #[trigger] final(game).entities.position@[y]
                == old(game).entities.position@[y],
            forall|y: int| 0 <= y < old(game).entities.core@.len() ==> #[trigger] final(game).entities.core@[y]
                == old(game).entities.core@[y],
            forall|y: int| 0 <= y < old(game).entities.core@.len() && !local_list(*old(game)).contains(y as usize)
                ==> #[trigger] final(game).entities.buffer@[y] == old(game).entities.buffer@[y],
    {
        let ghost g0 = *game;
        let local = game.settings.local_player;
        let n0 = game.players[local].entities.len();
        let count = game.settings.local_player_food_settings.throw_ratio;
        proof {
            lemma_throw_start(g0, offsets@);
        }
        let mut i: usize = 0;
        while i < n0
            invariant
                throw_static(g0, offsets@),
                throw_done(*game, g0, offsets@, i as int),
                local == g0.settings.local_player,
                count == g0.settings.local_player_food_settings.throw_ratio,
                n0 == local_list(g0).len(),
                i <= n0,
            decreases n0 - i,
        {
            proof {
                lemma_throw_turn(*game, g0, offsets@, i as int);
            }
            let ghost before = *game;
            let e = game.players[local].entities[i];
            Self::throw_from(game, e, offsets[i], count);
            proof {
                lemma_throw_step(before, *game, g0, offsets@, i as int);
            }
            i = i + 1;
        }
        proof {
            lemma_throw_end(*game, g0, offsets@);
        }
    }
}

} // verus!
