use vstd::prelude::*;
use crate::entity::entities::{EntityCore, EntityIndex};
use crate::entity::entities::Entities;
use crate::game::Game;
use crate::game::player::{Player, PlayerAction};

verus! {

broadcast use vstd::seq_lib::group_to_multiset_ensures;

/// Applies the changes queued in the players' buffers to their lists of
/// entities.
pub struct CachePlayerSolver;

/// Larger values come first.
pub open spec fn descending(s: Seq<usize>) -> bool {
    forall|i: int, j: int| 0 <= i < j < s.len() ==> s[i] >= s[j]
}

/// The values of `s`, largest first.
pub open spec fn descending_order(s: Seq<usize>) -> Seq<usize> {
    choose|r: Seq<usize>| descending(r) && r.to_multiset() == s.to_multiset()
}

/// Two orderings, largest first, of the same values are the same sequence.
pub proof fn lemma_descending_unique(a: Seq<usize>, b: Seq<usize>)
    requires
        descending(a),
        descending(b),
        a.to_multiset() == b.to_multiset(),
    ensures
        a == b,
    decreases a.len(),
{
    assert(a.to_multiset().len() == a.len());
    assert(b.to_multiset().len() == b.len());
    if a.len() == 0 {
        assert(b =~= a);
    } else {
        assert(b.len() == a.len());
        assert(a.to_multiset().count(a[0]) > 0) by {
            assert(a.contains(a[0]));
        }
        assert(b.contains(a[0]));
        assert(a.contains(b[0])) by {
            assert(b.contains(b[0]));
            assert(b.to_multiset().count(b[0]) > 0);
        }
        let ka = choose|k: int| 0 <= k < b.len() && b[k] == a[0];
        let kb = choose|k: int| 0 <= k < a.len() && a[k] == b[0];
        assert(b[0] >= b[ka]);
        assert(a[0] >= a[kb]);
        assert(a[0] == b[0]);
        let a1 = a.remove(0);
        let b1 = b.remove(0);
        assert(a1.to_multiset() == a.to_multiset().remove(a[0]));
        assert(b1.to_multiset() == b.to_multiset().remove(b[0]));
        assert forall|i: int, j: int| 0 <= i < j < a1.len() implies a1[i] >= a1[j] by {
            assert(a1[i] == a[i + 1] && a1[j] == a[j + 1]);
        }
        assert forall|i: int, j: int| 0 <= i < j < b1.len() implies b1[i] >= b1[j] by {
            assert(b1[i] == b[i + 1] && b1[j] == b[j + 1]);
        }
        lemma_descending_unique(a1, b1);
        assert forall|i: int| 0 <= i < a.len() implies a[i] == b[i] by {
            if i > 0 {
                assert(a[i] == a1[i - 1] && b[i] == b1[i - 1]);
            }
        }
        assert(a =~= b);
    }
}

/// The values of `v`, largest first (the order that lets positions be
/// swap-removed one after the other).
fn sort_descending(v: &Vec<usize>) -> (r: Vec<usize>)
    ensures
        descending(r@),
        r@.to_multiset() == v@.to_multiset(),
        r@ == descending_order(v@),
{
    let mut r: Vec<usize> = Vec::new();
    let mut i: usize = 0;
    while i < v.len()
        invariant
            i <= v.len(),
            descending(r@),
            r@.to_multiset() == v@.take(i as int).to_multiset(),
        decreases v.len() - i,
    {
        let x = v[i];
        let mut j: usize = 0;
        while j < r.len() && r[j] >= x
            invariant
                j <= r.len(),
                forall|k: int| 0 <= k < j ==> r@[k] >= x,
            decreases r.len() - j,
        {
            j = j + 1;
        }
        let ghost r0 = r@;
        r.insert(j, x);
        proof {
            assert(r@ == r0.insert(j as int, x));
            assert(r@.to_multiset() == r0.to_multiset().insert(x));
            assert(v@.take(i as int + 1) =~= v@.take(i as int).push(x));
            assert forall|a: int, b: int| 0 <= a < b < r@.len() implies r@[a] >= r@[b] by {
                if b < j {
                } else if a < j && b == j {
                } else if a < j {
                    assert(r@[b] == r0[b - 1]);
                } else if a == j {
                    assert(r@[b] == r0[b - 1]);
                    assert(r0[j as int] < x);
                } else {
                    assert(r@[a] == r0[a - 1] && r@[b] == r0[b - 1]);
                }
            }
        }
        i = i + 1;
    }
    proof {
        assert(v@.take(v@.len() as int) =~= v@);
        let d = descending_order(v@);
        assert(descending(d) && d.to_multiset() == v@.to_multiset());
        lemma_descending_unique(r@, d);
    }
    r
}

/// The positions that the entities record in their players' lists.
pub open spec fn positions(core: Seq<EntityCore>) -> Seq<usize> {
    Seq::new(core.len(), |i: int| core[i].index.player)
}

/// `core` with the positions in the players' lists taken from `pos`.
pub open spec fn with_positions(core: Seq<EntityCore>, pos: Seq<usize>) -> Seq<EntityCore> {
    Seq::new(
        core.len(),
        |i: int| EntityCore { index: EntityIndex { player: pos[i], ..core[i].index }, ..core[i] },
    )
}

/// The index that each entity records as its own.
pub open spec fn mains_of(core: Seq<EntityCore>) -> Seq<usize> {
    Seq::new(core.len(), |i: int| core[i].index.main)
}

/// A player's list, the positions recorded by the entities, and the list
/// positions waiting to leave.
pub type ActionState = (Seq<usize>, Seq<usize>, Seq<usize>);

/// The action can be applied: an added entity exists, and a moved entity
/// that is still alive exists and records a position inside the list.
pub open spec fn action_applicable(
    st: ActionState,
    a: PlayerAction,
    mains: Seq<usize>,
    ptrs: Seq<Option<usize>>,
) -> bool {
    match a {
        PlayerAction::AddEntity(i) => i < st.1.len(),
        PlayerAction::KillEntity(_) => true,
        PlayerAction::Move(h) => h < ptrs.len() && (ptrs[h as int] matches Some(e) ==> e < st.1.len()
            && e < mains.len() && st.1[e as int] < st.0.len()),
    }
}

/// One action: an added entity records the end of the list and is
/// appended; a killed position is noted; a moved entity that is still
/// alive has its list entry set to its index.
pub open spec fn apply_action(
    st: ActionState,
    a: PlayerAction,
    mains: Seq<usize>,
    ptrs: Seq<Option<usize>>,
) -> ActionState {
    match a {
        PlayerAction::AddEntity(i) => (st.0.push(i), st.1.update(i as int, st.0.len() as usize), st.2),
        PlayerAction::KillEntity(k) => (st.0, st.1, st.2.push(k)),
        PlayerAction::Move(h) => match ptrs[h as int] {
            Some(e) => (st.0.update(st.1[e as int] as int, mains[e as int]), st.1, st.2),
            None => st,
        },
    }
}

/// The actions, in order.
pub open spec fn apply_actions(
    st: ActionState,
    actions: Seq<PlayerAction>,
    mains: Seq<usize>,
    ptrs: Seq<Option<usize>>,
) -> ActionState
    decreases actions.len(),
{
    if actions.len() == 0 {
        st
    } else {
        apply_action(apply_actions(st, actions.drop_last(), mains, ptrs), actions.last(), mains, ptrs)
    }
}

/// Each action can be applied where it comes.
pub open spec fn actions_applicable(
    st: ActionState,
    actions: Seq<PlayerAction>,
    mains: Seq<usize>,
    ptrs: Seq<Option<usize>>,
) -> bool {
    forall|j: int| 0 <= j < actions.len() ==> action_applicable(
        apply_actions(st, #[trigger] actions.take(j), mains, ptrs),
        actions[j],
        mains,
        ptrs,
    )
}

/// The position lies in the list, and an entry moved into it belongs to an
/// existing entity.
pub open spec fn kill_applicable(st: (Seq<usize>, Seq<usize>), k: usize) -> bool {
    &&& k < st.0.len()
    &&& k < st.0.len() - 1 ==> st.0.last() < st.1.len()
}

/// The entry at position `k` is swap-removed; the entry moved into its
/// place records its new position.
pub open spec fn apply_kill(st: (Seq<usize>, Seq<usize>), k: usize) -> (Seq<usize>, Seq<usize>) {
    let l = st.0.update(k as int, st.0.last()).drop_last();
    if k < l.len() {
        (l, st.1.update(l[k as int] as int, k))
    } else {
        (l, st.1)
    }
}

/// The positions, in order.
pub open spec fn apply_kills(st: (Seq<usize>, Seq<usize>), ks: Seq<usize>) -> (Seq<usize>, Seq<usize>)
    decreases ks.len(),
{
    if ks.len() == 0 {
        st
    } else {
        apply_kill(apply_kills(st, ks.drop_last()), ks.last())
    }
}

/// Each position can be removed where it comes.
pub open spec fn kills_applicable(st: (Seq<usize>, Seq<usize>), ks: Seq<usize>) -> bool {
    forall|j: int| 0 <= j < ks.len() ==> kill_applicable(apply_kills(st, #[trigger] ks.take(j)), ks[j])
}

proof fn lemma_positions_with(core: Seq<EntityCore>, pos: Seq<usize>)
    requires
        pos.len() == core.len(),
    ensures
        positions(with_positions(core, pos)) == pos,
        mains_of(with_positions(core, pos)) == mains_of(core),
        with_positions(core, positions(core)) == core,
        forall|p: Seq<usize>| p.len() == core.len() ==> #[trigger] with_positions(with_positions(core, pos), p)
            == with_positions(core, p),
{
    assert(positions(with_positions(core, pos)) =~= pos);
    assert(mains_of(with_positions(core, pos)) =~= mains_of(core));
    assert(with_positions(core, positions(core)) =~= core);
    assert forall|p: Seq<usize>| p.len() == core.len() implies #[trigger] with_positions(with_positions(core, pos), p)
        == with_positions(core, p) by {
        assert(with_positions(with_positions(core, pos), p) =~= with_positions(core, p));
    }
}

/// Applies `actions` to a player's list and to the entities' recorded
/// positions, and returns the list positions to kill, in the order they
/// came.
fn apply_actions_to(
    list: &mut Vec<usize>,
    core: &mut Vec<EntityCore>,
    ptrs: &Vec<Option<usize>>,
    actions: &Vec<PlayerAction>,
) -> (killed: Vec<usize>)
    requires
        actions_applicable((old(list)@, positions(old(core)@), Seq::empty()), actions@, mains_of(old(core)@), ptrs@),
    ensures
        ({
            let st = apply_actions((old(list)@, positions(old(core)@), Seq::empty()), actions@, mains_of(old(core)@), ptrs@);
            &&& final(list)@ == st.0
            &&& st.1.len() == old(core)@.len()
            &&& final(core)@ == with_positions(old(core)@, st.1)
            &&& killed@ == st.2
        }),
{
    let ghost core0 = core@;
    let ghost st0: ActionState = (list@, positions(core0), Seq::empty());
    let mut killed: Vec<usize> = Vec::new();
    let mut j: usize = 0;
    proof {
        lemma_positions_with(core0, positions(core0));
        assert(actions@.take(0) =~= Seq::<PlayerAction>::empty());
    }
    while j < actions.len()
        invariant
            j <= actions@.len(),
            actions_applicable(st0, actions@, mains_of(core0), ptrs@),
            st0 == (old(list)@, positions(core0), Seq::<usize>::empty()),
            core0 == old(core)@,
            ({
                let st = apply_actions(st0, actions@.take(j as int), mains_of(core0), ptrs@);
                &&& list@ == st.0
                &&& st.1.len() == core0.len()
                &&& core@ == with_positions(core0, st.1)
                &&& killed@ == st.2
            }),
        decreases actions.len() - j,
    {
        let ghost st = apply_actions(st0, actions@.take(j as int), mains_of(core0), ptrs@);
        proof {
            assert(action_applicable(st, actions@[j as int], mains_of(core0), ptrs@));
            assert(actions@.take(j as int + 1).drop_last() =~= actions@.take(j as int));
            lemma_positions_with(core0, st.1);
        }
        match actions[j] {
            PlayerAction::AddEntity(i) => {
                let len = list.len();
                core[i].index.player = len;
                list.push(i);
                proof {
                    lemma_positions_with(core0, st.1.update(i as int, len));
                }
            },
            PlayerAction::KillEntity(k) => {
                killed.push(k);
            },
            PlayerAction::Move(h) => {
                match ptrs[h] {
                    Some(e) => {
                        let at = core[e].index.player;
                        let main = core[e].index.main;
                        list.set(at, main);
                    },
                    None => {},
                }
            },
        }
        j = j + 1;
    }
    proof {
        assert(actions@.take(actions@.len() as int) =~= actions@);
    }
    killed
}

/// Swap-removes the list positions `kills`, in order; each entry moved into
/// a removed position records its new position.
fn apply_kills_to(list: &mut Vec<usize>, core: &mut Vec<EntityCore>, kills: &Vec<usize>)
    requires
        kills_applicable((old(list)@, positions(old(core)@)), kills@),
    ensures
        ({
            let st = apply_kills((old(list)@, positions(old(core)@)), kills@);
            &&& final(list)@ == st.0
            &&& st.1.len() == old(core)@.len()
            &&& final(core)@ == with_positions(old(core)@, st.1)
        }),
{
    let ghost core0 = core@;
    let ghost st0 = (list@, positions(core0));
    let mut j: usize = 0;
    proof {
        lemma_positions_with(core0, positions(core0));
        assert(kills@.take(0) =~= Seq::<usize>::empty());
    }
    while j < kills.len()
        invariant
            j <= kills@.len(),
            kills_applicable(st0, kills@),
            st0 == (old(list)@, positions(core0)),
            core0 == old(core)@,
            ({
                let st = apply_kills(st0, kills@.take(j as int));
                &&& list@ == st.0
                &&& st.1.len() == core0.len()
                &&& core@ == with_positions(core0, st.1)
            }),
        decreases kills.len() - j,
    {
        let ghost st = apply_kills(st0, kills@.take(j as int));
        proof {
            assert(kill_applicable(st, kills@[j as int]));
            assert(kills@.take(j as int + 1).drop_last() =~= kills@.take(j as int));
            lemma_positions_with(core0, st.1);
        }
        let k = kills[j];
        list.swap_remove(k);
        if k < list.len() {
            let moved = list[k];
            core[moved].index.player = k;
            proof {
                lemma_positions_with(core0, st.1.update(moved as int, k));
            }
        }
        j = j + 1;
    }
    proof {
        assert(kills@.take(kills@.len() as int) =~= kills@);
    }
}

/// What a player's buffer does to its list and to the recorded positions:
/// its actions in order, then the noted list positions removed, largest
/// first.
pub open spec fn player_result(
    list: Seq<usize>,
    buffer: Seq<PlayerAction>,
    pos: Seq<usize>,
    mains: Seq<usize>,
    ptrs: Seq<Option<usize>>,
) -> (Seq<usize>, Seq<usize>) {
    let st = apply_actions((list, pos, Seq::empty()), buffer, mains, ptrs);
    apply_kills((st.0, st.1), descending_order(st.2))
}

/// Every step of `player_result` can be taken.
pub open spec fn player_applicable(
    list: Seq<usize>,
    buffer: Seq<PlayerAction>,
    pos: Seq<usize>,
    mains: Seq<usize>,
    ptrs: Seq<Option<usize>>,
) -> bool {
    let st = apply_actions((list, pos, Seq::empty()), buffer, mains, ptrs);
    &&& actions_applicable((list, pos, Seq::empty()), buffer, mains, ptrs)
    &&& kills_applicable((st.0, st.1), descending_order(st.2))
}

/// The recorded positions once the buffers of the players before `p` have
/// been applied.
pub open spec fn positions_before(
    players: Seq<Player>,
    core: Seq<EntityCore>,
    ptrs: Seq<Option<usize>>,
    p: nat,
) -> Seq<usize>
    decreases p,
{
    if p == 0 {
        positions(core)
    } else {
        let q = (p - 1) as nat;
        player_result(
            players[q as int].entities@,
            players[q as int].buffer@,
            positions_before(players, core, ptrs, q),
            mains_of(core),
            ptrs,
        ).1
    }
}

/// The players' buffers can be applied one player after the other.
pub open spec fn buffers_applicable(g: Game) -> bool {
    forall|p: int| 0 <= p < g.players@.len() ==> #[trigger] player_applicable(
        g.players@[p].entities@,
        g.players@[p].buffer@,
        positions_before(g.players@, g.entities.core@, g.entities.main_ptrs@, p as nat),
        mains_of(g.entities.core@),
        g.entities.main_ptrs@,
    )
}

/// With every buffer empty, applying the buffers changes no list and no
/// recorded position.
pub proof fn lemma_empty_buffers_change_nothing(g: Game)
    requires
        forall|p: int| 0 <= p < g.players@.len() ==> (#[trigger] g.players@[p]).buffer@.len() == 0,
    ensures
        buffers_applicable(g),
        forall|p: int| 0 <= p < g.players@.len() ==> #[trigger] player_result(
            g.players@[p].entities@,
            g.players@[p].buffer@,
            positions_before(g.players@, g.entities.core@, g.entities.main_ptrs@, p as nat),
            mains_of(g.entities.core@),
            g.entities.main_ptrs@,
        ) == (g.players@[p].entities@, positions(g.entities.core@)),
        with_positions(
            g.entities.core@,
            positions_before(g.players@, g.entities.core@, g.entities.main_ptrs@, g.players@.len()),
        ) == g.entities.core@,
{
    let core = g.entities.core@;
    let ptrs = g.entities.main_ptrs@;
    let e = Seq::<usize>::empty();
    assert(e.to_multiset().len() == 0);
    assert(e.to_multiset() =~= vstd::multiset::Multiset::empty());
    let d = descending_order(e);
    assert(descending(e) && e.to_multiset() == e.to_multiset());
    lemma_descending_unique(d, e);
    assert forall|n: nat| n <= g.players@.len() implies #[trigger] positions_before(g.players@, core, ptrs, n) == positions(core) by {
        lemma_positions_before_unchanged(g, n);
    }
    assert forall|p: int| 0 <= p < g.players@.len() implies #[trigger] player_applicable(
        g.players@[p].entities@,
        g.players@[p].buffer@,
        positions_before(g.players@, core, ptrs, p as nat),
        mains_of(core),
        ptrs,
    ) by {
        assert(g.players@[p].buffer@ =~= Seq::<PlayerAction>::empty());
        assert(positions_before(g.players@, core, ptrs, p as nat) == positions(core));
    }
    assert forall|p: int| 0 <= p < g.players@.len() implies #[trigger] player_result(
        g.players@[p].entities@,
        g.players@[p].buffer@,
        positions_before(g.players@, core, ptrs, p as nat),
        mains_of(core),
        ptrs,
    ) == (g.players@[p].entities@, positions(core)) by {
        assert(g.players@[p].buffer@ =~= Seq::<PlayerAction>::empty());
        assert(positions_before(g.players@, core, ptrs, p as nat) == positions(core));
    }
    lemma_positions_with(core, positions(core));
    assert(positions_before(g.players@, core, ptrs, g.players@.len()) == positions(core));
}

proof fn lemma_positions_before_unchanged(g: Game, n: nat)
    requires
        forall|p: int| 0 <= p < g.players@.len() ==> (#[trigger] g.players@[p]).buffer@.len() == 0,
        n <= g.players@.len(),
        descending_order(Seq::<usize>::empty()) == Seq::<usize>::empty(),
    ensures
        positions_before(g.players@, g.entities.core@, g.entities.main_ptrs@, n) == positions(g.entities.core@),
    decreases n,
{
    if n > 0 {
        let q = (n - 1) as nat;
        lemma_positions_before_unchanged(g, q);
        assert(g.players@[q as int].buffer@ =~= Seq::<PlayerAction>::empty());
    }
}

impl CachePlayerSolver {
    /// Applies each player's buffer in turn, from the first player to the
    /// last, and empties it: the actions in the order they came (an added
    /// entity joins the end of the list, a moved entity's entry is set to
    /// its index, a killed position is noted), then the noted positions
    /// swap-removed from the largest down.
    pub fn solve(game: &mut Game)
        requires
            buffers_applicable(*old(game)),
        ensures
            final(game).players@.len() == old(game).players@.len(),
            forall|p: int| 0 <= p < old(game).players@.len() ==> {
                &&& (#[trigger] final(game).players@[p]).entities@ == player_result(
                    old(game).players@[p].entities@,
                    old(game).players@[p].buffer@,
                    positions_before(old(game).players@, old(game).entities.core@, old(game).entities.main_ptrs@, p as nat),
                    mains_of(old(game).entities.core@),
                    old(game).entities.main_ptrs@,
                ).0
                &&& final(game).players@[p].buffer@.len() == 0
                &&& final(game).players@[p].kind == old(game).players@[p].kind
                &&& final(game).players@[p].cell_default_color == old(game).players@[p].cell_default_color
                &&& final(game).players@[p].cell_default_texture == old(game).players@[p].cell_default_texture
            },
            final(game).entities.core@ == with_positions(
                old(game).entities.core@,
                positions_before(
                    old(game).players@,
                    old(game).entities.core@,
                    old(game).entities.main_ptrs@,
                    old(game).players@.len(),
                ),
            ),
            *final(game) == (Game {
                players: final(game).players,
                entities: Entities { core: final(game).entities.core, ..old(game).entities },
                ..*old(game)
            }),
    {
        let ghost g0 = *game;
        let ghost core0 = g0.entities.core@;
        let ghost ptrs0 = g0.entities.main_ptrs@;
        let ghost mains0 = mains_of(core0);
        let n = game.players.len();
        let mut p: usize = 0;
        proof {
            lemma_positions_with(core0, positions(core0));
        }
        while p < n
            invariant
                p <= n,
                n == g0.players@.len(),
                buffers_applicable(g0),
                core0 == g0.entities.core@,
                ptrs0 == g0.entities.main_ptrs@,
                mains0 == mains_of(core0),
                game.players@.len() == n,
                positions_before(g0.players@, core0, ptrs0, p as nat).len() == core0.len(),
                game.entities.core@ == with_positions(core0, positions_before(g0.players@, core0, ptrs0, p as nat)),
                forall|q: int| p <= q < n ==> #[trigger] game.players@[q] == g0.players@[q],
                forall|q: int| 0 <= q < p ==> {
                    &&& (#[trigger] game.players@[q]).entities@ == player_result(
                        g0.players@[q].entities@,
                        g0.players@[q].buffer@,
                        positions_before(g0.players@, core0, ptrs0, q as nat),
                        mains0,
                        ptrs0,
                    ).0
                    &&& game.players@[q].buffer@.len() == 0
                    &&& game.players@[q].kind == g0.players@[q].kind
                    &&& game.players@[q].cell_default_color == g0.players@[q].cell_default_color
                    &&& game.players@[q].cell_default_texture == g0.players@[q].cell_default_texture
                },
                *game == (Game {
                    players: game.players,
                    entities: Entities { core: game.entities.core, ..g0.entities },
                    ..g0
                }),
            decreases n - p,
        {
            let ghost pos = positions_before(g0.players@, core0, ptrs0, p as nat);
            let ghost before = *game;
            proof {
                lemma_positions_with(core0, pos);
                let pi = p as int;
                assert(player_applicable(
                    g0.players@[pi].entities@,
                    g0.players@[pi].buffer@,
                    positions_before(g0.players@, g0.entities.core@, g0.entities.main_ptrs@, pi as nat),
                    mains_of(g0.entities.core@),
                    g0.entities.main_ptrs@,
                ));
            }
            let mut buffer: Vec<PlayerAction> = Vec::new();
            std::mem::swap(&mut buffer, &mut game.players[p].buffer);
            let mut list: Vec<usize> = Vec::new();
            std::mem::swap(&mut list, &mut game.players[p].entities);
            let killed = apply_actions_to(&mut list, &mut game.entities.core, &game.entities.main_ptrs, &buffer);
            let order = sort_descending(&killed);
            let ghost st = apply_actions((g0.players@[p as int].entities@, pos, Seq::empty()), buffer@, mains0, ptrs0);
            proof {
                lemma_positions_with(core0, st.1);
            }
            apply_kills_to(&mut list, &mut game.entities.core, &order);
            std::mem::swap(&mut list, &mut game.players[p].entities);
            proof {
                let r = apply_kills((st.0, st.1), order@);
                lemma_positions_with(core0, r.1);
                assert(positions_before(g0.players@, core0, ptrs0, (p + 1) as nat) == r.1);
            }
            p = p + 1;
        }
    }
}

} // verus!
