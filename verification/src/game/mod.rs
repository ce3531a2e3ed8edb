pub mod player;
pub mod settings;
pub mod colors;
pub mod gui;

use vstd::prelude::*;
use crate::entity::{EntityCharacteristics, EntityInfo, same_characteristics};
use crate::entity::entities::clamp_spec;
use crate::map::map_size_ok;
use crate::geometry::{Point2D, Size2D};
use crate::map::MapInfo;
use settings::{Settings, same_settings};
use crate::entity::entities::{Entities, EntityCore, EntityIndex, flags_of, initial_flags};
use crate::entity::index::MatrixIndex;
use crate::map::GameMap;
use crate::map::matrix_simple::{MatrixSimple, MatrixSimpleCellContent, lemma_add_keeps_consistent, lemma_move_keeps_consistent, lemma_swap_remove_keeps_consistent};
use crate::utils::VecUniqueIndex;
use player::{Player, PlayerInfo};

verus! {

/// The sum of the masses.
pub open spec fn sum_masses(m: Seq<i64>) -> int
    decreases m.len(),
{
    if m.len() == 0 {
        0
    } else {
        sum_masses(m.drop_last()) + m.last()
    }
}

/// How far the game has run: the update counter, and the switches that
/// decide whether an update waits for the next tick.
#[derive(Clone, Copy, PartialEq, Eq, Structural, Debug)]
pub struct GameStep {
    pub actual_count: i32,
    pub changed_map: bool,
    pub full_speed: bool,
}

impl Default for GameStep {
    fn default() -> (s: GameStep)
        ensures
            s.actual_count == 0,
            !s.changed_map,
            !s.full_speed,
    {
        GameStep { actual_count: 0, changed_map: false, full_speed: false }
    }
}

/// The screen the game is on.
#[derive(Clone, Copy, PartialEq, Eq, Structural, Debug)]
pub enum GameState {
    MainMenu,
    Editor,
    Playing,
}

/// What a game is started with: the number of worker threads.
#[derive(Clone, Copy, Debug)]
pub struct GameInfo {
    pub threads: usize,
}

/// What the editor is doing: the entity it places on click, the tab it
/// shows, the rectangle being drawn and the entities selected or hovered,
/// each by index and by handle.
#[derive(Debug)]
pub struct EditorState {
    pub new_entity: EntityInfo,
    pub new_entity_on_click: bool,
    pub tab: i32,
    pub selection: Option<Point2D>,
    pub selected: Option<Vec<usize>>,
    pub selected_atomic: Option<Vec<usize>>,
    pub entity_selected: Option<usize>,
    pub entity_selected_atomic: Option<usize>,
    pub entity_hovered: Option<usize>,
    pub entity_hovered_atomic: Option<usize>,
    pub hovered: bool,
}

impl Default for EditorState {
    fn default() -> (e: EditorState)
        ensures
            !e.new_entity_on_click,
            e.tab == 0,
            e.selection is None,
            e.selected is None,
            e.selected_atomic is None,
            e.entity_selected is None,
            e.entity_selected_atomic is None,
            e.entity_hovered is None,
            e.entity_hovered_atomic is None,
            !e.hovered,
    {
        EditorState {
            new_entity: EntityInfo::default(),
            new_entity_on_click: false,
            tab: 0,
            selection: None,
            selected: None,
            selected_atomic: None,
            entity_selected: None,
            entity_selected_atomic: None,
            entity_hovered: None,
            entity_hovered_atomic: None,
            hovered: false,
        }
    }
}

impl EditorState {
    /// Forgets the selection and what is selected or hovered; the entity to
    /// place, the tab and the hovering of the interface stay.
    pub fn reinit(&mut self)
        ensures
            final(self).selection is None,
            final(self).selected is None,
            final(self).selected_atomic == old(self).selected_atomic,
            final(self).entity_selected is None,
            final(self).entity_selected_atomic is None,
            final(self).entity_hovered is None,
            final(self).entity_hovered_atomic is None,
            final(self).new_entity_on_click == old(self).new_entity_on_click,
            final(self).tab == old(self).tab,
            final(self).hovered == old(self).hovered,
            final(self).new_entity == old(self).new_entity,
    {
        self.selection = None;
        self.selected = None;
        self.entity_selected = None;
        self.entity_selected_atomic = None;
        self.entity_hovered = None;
        self.entity_hovered_atomic = None;
    }
}

/// The integer state of a game: its settings, its map, its players, its
/// entities and the entities waiting to be added or killed.
pub struct Game {
    pub settings: Settings,
    pub state: GameState,
    pub step: GameStep,
    pub editor_state: EditorState,
    pub map: GameMap,
    pub players: Vec<Player>,
    pub entities: Entities,
    pub entities_characteristics: Vec<EntityCharacteristics>,
    /// Entities to add at the end of the update.
    pub buffer_add_entity: Vec<EntityInfo>,
    /// Handles of the entities to kill at the end of the update.
    pub buffer_kill_entity: Vec<usize>,
    pub id_generator: VecUniqueIndex,
}

/// Each entity's player lists it at the position the entity records, and
/// each entry of a player's list is an entity of that player that records
/// that position.
pub open spec fn players_ok(players: Seq<Player>, core: Seq<EntityCore>) -> bool {
    &&& forall|i: int| 0 <= i < core.len() ==> {
        &&& (#[trigger] core[i]).player < players.len()
        &&& core[i].index.player < players[core[i].player as int].entities@.len()
        &&& players[core[i].player as int].entities@[core[i].index.player as int] == i
    }
    &&& forall|p: int, k: int| 0 <= p < players.len() && 0 <= k < players[p].entities@.len() ==> {
        &&& (#[trigger] players[p].entities@[k]) < core.len()
        &&& core[players[p].entities@[k] as int].player == p
        &&& core[players[p].entities@[k] as int].index.player == k
    }
}

/// `players_ok` for every entity but `idx`, which no list holds any more.
pub open spec fn players_ok_except(players: Seq<Player>, core: Seq<EntityCore>, idx: int) -> bool {
    &&& forall|i: int| 0 <= i < core.len() && i != idx ==> {
        &&& (#[trigger] core[i]).player < players.len()
        &&& core[i].index.player < players[core[i].player as int].entities@.len()
        &&& players[core[i].player as int].entities@[core[i].index.player as int] == i
    }
    &&& forall|p: int, k: int| 0 <= p < players.len() && 0 <= k < players[p].entities@.len() ==> {
        &&& (#[trigger] players[p].entities@[k]) < core.len()
        &&& players[p].entities@[k] != idx
        &&& core[players[p].entities@[k] as int].player == p
        &&& core[players[p].entities@[k] as int].index.player == k
    }
}

/// Taking entity `idx` out of its player's list by swap-removal, and
/// telling the entity moved within the list its new position, leaves the
/// lists in step with every other entity.
pub proof fn lemma_players_after_list_removal(
    p0s: Seq<Player>,
    c0: Seq<EntityCore>,
    idx: int,
    p1s: Seq<Player>,
    c1: Seq<EntityCore>,
)
    requires
        players_ok(p0s, c0),
        0 <= idx < c0.len(),
        p1s.len() == p0s.len(),
        ({
            let p0 = c0[idx].player as int;
            let k0 = c0[idx].index.player as int;
            let l0 = p0s[p0].entities@;
            &&& p1s[p0].entities@ == l0.update(k0, l0.last()).drop_last()
            &&& forall|p: int| 0 <= p < p0s.len() && p != p0 ==> #[trigger] p1s[p].entities@ == p0s[p].entities@
            &&& c1.len() == c0.len()
            &&& forall|i: int| 0 <= i < c0.len() ==> (#[trigger] c1[i]).player == c0[i].player
            &&& forall|i: int| 0 <= i < c0.len() ==> (#[trigger] c1[i]).index.player == if k0 < l0.len() - 1 && i == l0.last() {
                k0 as usize
            } else {
                c0[i].index.player
            }
        }),
    ensures
        players_ok_except(p1s, c1, idx),
{
    let p0 = c0[idx].player as int;
    let k0 = c0[idx].index.player as int;
    let l0 = p0s[p0].entities@;
    let l1 = p1s[p0].entities@;
    assert(l0[k0] == idx);
    assert forall|i: int| 0 <= i < c1.len() && i != idx implies {
        &&& (#[trigger] c1[i]).player < p1s.len()
        &&& c1[i].index.player < p1s[c1[i].player as int].entities@.len()
        &&& p1s[c1[i].player as int].entities@[c1[i].index.player as int] == i
    } by {
        let q = c0[i].player as int;
        let k = c0[i].index.player as int;
        assert(p0s[q].entities@[k] == i);
        if q == p0 {
            if k == l0.len() - 1 {
                assert(l0.last() == i);
                assert(k0 != k);
                assert(l1[k0] == i);
            } else {
                assert(k != k0);
                assert(l1[k] == l0[k]);
                if k0 < l0.len() - 1 {
                    assert(i != l0.last()) by {
                        assert(c0[l0.last() as int].index.player == l0.len() - 1);
                    }
                }
            }
        } else {
            assert(p1s[q].entities@ == p0s[q].entities@);
            if k0 < l0.len() - 1 {
                assert(i != l0.last()) by {
                    assert(c0[l0.last() as int].player == p0);
                }
            }
        }
    }
    assert forall|p: int, k: int| 0 <= p < p1s.len() && 0 <= k < p1s[p].entities@.len() implies {
        &&& (#[trigger] p1s[p].entities@[k]) < c1.len()
        &&& p1s[p].entities@[k] != idx
        &&& c1[p1s[p].entities@[k] as int].player == p
        &&& c1[p1s[p].entities@[k] as int].index.player == k
    } by {
        if p == p0 {
            if k == k0 {
                assert(l1[k] == l0.last());
                assert(c0[l0.last() as int].index.player == l0.len() - 1);
            } else {
                assert(l1[k] == l0[k]);
                assert(c0[l0[k] as int].index.player == k);
                if k0 < l0.len() - 1 {
                    assert(l0[k] != l0.last()) by {
                        assert(c0[l0.last() as int].index.player == l0.len() - 1);
                    }
                }
            }
        } else {
            assert(p1s[p].entities@ == p0s[p].entities@);
            let e = p0s[p].entities@[k];
            assert(c0[e as int].player == p);
            if k0 < l0.len() - 1 {
                assert(e != l0.last()) by {
                    assert(c0[l0.last() as int].player == p0);
                }
            }
        }
    }
}

/// Appending entity `idx`, which no list holds, to the list of player `np`
/// and telling it its player and its position there brings the lists back
/// in step with every entity.
pub proof fn lemma_players_after_list_insert(
    p1s: Seq<Player>,
    c1: Seq<EntityCore>,
    idx: int,
    np: int,
    p2s: Seq<Player>,
    c2: Seq<EntityCore>,
)
    requires
        players_ok_except(p1s, c1, idx),
        0 <= idx < c1.len(),
        idx <= usize::MAX,
        0 <= np < p1s.len(),
        p2s.len() == p1s.len(),
        p2s[np].entities@ == p1s[np].entities@.push(idx as usize),
        forall|p: int| 0 <= p < p1s.len() && p != np ==> #[trigger] p2s[p].entities@ == p1s[p].entities@,
        c2.len() == c1.len(),
        c2[idx].player == np,
        c2[idx].index.player == p1s[np].entities@.len(),
        forall|i: int| 0 <= i < c1.len() && i != idx ==> {
            &&& (#[trigger] c2[i]).player == c1[i].player
            &&& c2[i].index.player == c1[i].index.player
        },
    ensures
        players_ok(p2s, c2),
{
    let l1 = p1s[np].entities@;
    assert forall|i: int| 0 <= i < c2.len() implies {
        &&& (#[trigger] c2[i]).player < p2s.len()
        &&& c2[i].index.player < p2s[c2[i].player as int].entities@.len()
        &&& p2s[c2[i].player as int].entities@[c2[i].index.player as int] == i
    } by {
        if i == idx {
            assert(p2s[np].entities@[l1.len() as int] == idx);
        } else {
            let q = c1[i].player as int;
            let k = c1[i].index.player as int;
            assert(p1s[q].entities@[k] == i);
            if q == np {
                assert(p2s[np].entities@[k] == l1[k]);
            }
        }
    }
    assert forall|p: int, k: int| 0 <= p < p2s.len() && 0 <= k < p2s[p].entities@.len() implies {
        &&& (#[trigger] p2s[p].entities@[k]) < c2.len()
        &&& c2[p2s[p].entities@[k] as int].player == p
        &&& c2[p2s[p].entities@[k] as int].index.player == k
    } by {
        if p == np && k == l1.len() {
            assert(p2s[p].entities@[k] == idx);
        } else {
            let e = p1s[p].entities@[k];
            assert(p2s[p].entities@[k] == e);
            assert(e != idx);
        }
    }
}

/// Moving the last entity into slot `idx`, and pointing its list entry at
/// `idx`, brings the lists back in step with every entity.
pub proof fn lemma_players_after_swap(
    p1s: Seq<Player>,
    c1: Seq<EntityCore>,
    idx: int,
    p2s: Seq<Player>,
    c2: Seq<EntityCore>,
)
    requires
        players_ok_except(p1s, c1, idx),
        0 <= idx < c1.len(),
        c2.len() == c1.len() - 1,
        p2s.len() == p1s.len(),
        forall|j: int| 0 <= j < c2.len() ==> (#[trigger] c2[j]).player == c1[if j == idx { c1.len() - 1 } else { j }].player,
        forall|j: int| 0 <= j < c2.len() ==> (#[trigger] c2[j]).index.player
            == c1[if j == idx { c1.len() - 1 } else { j }].index.player,
        idx == c1.len() - 1 ==> forall|p: int| 0 <= p < p1s.len() ==> #[trigger] p2s[p].entities@ == p1s[p].entities@,
        idx < c1.len() - 1 ==> forall|p: int| 0 <= p < p1s.len() ==> #[trigger] p2s[p].entities@ == if p
            == c1.last().player {
            p1s[p].entities@.update(c1.last().index.player as int, idx as usize)
        } else {
            p1s[p].entities@
        },
    ensures
        players_ok(p2s, c2),
{
    let last = c1.len() - 1;
    assert forall|j: int| 0 <= j < c2.len() implies {
        &&& (#[trigger] c2[j]).player < p2s.len()
        &&& c2[j].index.player < p2s[c2[j].player as int].entities@.len()
        &&& p2s[c2[j].player as int].entities@[c2[j].index.player as int] == j
    } by {
        let src = if j == idx { last } else { j };
        assert(src != idx);
        let q = c1[src].player as int;
        let k = c1[src].index.player as int;
        assert(p1s[q].entities@[k] == src);
        if idx < last && src != last && q == c1.last().player && k == c1.last().index.player {
            assert(p1s[q].entities@[k] == last);
        }
    }
    assert forall|p: int, k: int| 0 <= p < p2s.len() && 0 <= k < p2s[p].entities@.len() implies {
        &&& (#[trigger] p2s[p].entities@[k]) < c2.len()
        &&& c2[p2s[p].entities@[k] as int].player == p
        &&& c2[p2s[p].entities@[k] as int].index.player == k
    } by {
        if idx < last && p == c1.last().player && k == c1.last().index.player {
            assert(p2s[p].entities@[k] == idx);
        } else {
            let e = p1s[p].entities@[k];
            assert(p2s[p].entities@[k] == e);
            assert(e != idx);
            assert(c1[e as int].player == p);
            assert(c1[e as int].index.player == k);
            if e == last {
                assert(idx == last || (p == c1.last().player && k == c1.last().index.player));
            }
        }
    }
}

/// Every entity holds a distinct identifier that the generator counts as
/// in use.
pub open spec fn ids_ok(core: Seq<EntityCore>, ids: VecUniqueIndex) -> bool {
    &&& forall|i: int| 0 <= i < core.len() ==> ids.in_use@.contains((#[trigger] core[i]).index.unique_id)
    &&& forall|i: int, j: int| 0 <= i < core.len() && 0 <= j < core.len() && i != j
        ==> (#[trigger] core[i]).index.unique_id != (#[trigger] core[j]).index.unique_id
}

/// Every entity stands on the map.
pub open spec fn positions_ok(entities: Entities, map: GameMap) -> bool {
    forall|i: int| 0 <= i < entities.position@.len() ==> {
        &&& 0 <= (#[trigger] entities.position@[i]).x <= map.max_spec().width
        &&& 0 <= entities.position@[i].y <= map.max_spec().height
    }
}

/// A point of the map lies in a cell of the simple grid.
pub proof fn lemma_map_covers(map: GameMap, x: int, y: int)
    requires
        map.wf(),
        0 <= x <= map.max_spec().width,
        0 <= y <= map.max_spec().height,
    ensures
        map.matrix_simple.covers(crate::geometry::Point2D { x: x as i32, y: y as i32 }),
{
    let w = map.size.width as int;
    let h = map.size.height as int;
    assert(x / 10000 < w) by (nonlinear_arith)
        requires
            0 <= x <= w * 10000 - 1,
    ;
    assert(y / 10000 < h) by (nonlinear_arith)
        requires
            0 <= y <= h * 10000 - 1,
    ;
    assert(x / 10000 >= 0 && y / 10000 >= 0) by (nonlinear_arith)
        requires
            0 <= x,
            0 <= y,
    ;
}

/// A game in which each entity keeps its player, its indexes, its handle
/// and the grid its place, and stays on the map, stays well formed whatever
/// else of the entities changed.
pub proof fn lemma_same_structure_keeps_wf(g: Game, g0: Game)
    requires
        g0.wf(),
        g.map == g0.map,
        g.players == g0.players,
        g.id_generator == g0.id_generator,
        g.entities.main_ptrs == g0.entities.main_ptrs,
        g.entities.index_matrix_simple == g0.entities.index_matrix_simple,
        g.entities.core@.len() == g0.entities.core@.len(),
        g.entities.sizes_ok(),
        forall|j: int| 0 <= j < g0.entities.core@.len() ==> {
            &&& (#[trigger] g.entities.core@[j]).player == g0.entities.core@[j].player
            &&& g.entities.core@[j].index.main == g0.entities.core@[j].index.main
            &&& g.entities.core@[j].index.main_ptr == g0.entities.core@[j].index.main_ptr
            &&& g.entities.core@[j].index.player == g0.entities.core@[j].index.player
            &&& g.entities.core@[j].index.unique_id == g0.entities.core@[j].index.unique_id
        },
        positions_ok(g.entities, g.map),
    ensures
        g.wf(),
{
    let e = g.entities;
    let e0 = g0.entities;
    assert forall|k: int| 0 <= k < e.core@.len() implies {
        &&& #[trigger] e.core@[k].index.main == k
        &&& e.core@[k].index.main_ptr < e.main_ptrs@.len()
        &&& e.main_ptrs@[e.core@[k].index.main_ptr as int] == Some(k as usize)
    } by {
        assert(e0.core@[k].index.main == k);
    }
    assert forall|h: int| 0 <= h < e.main_ptrs@.len() && (#[trigger] e.main_ptrs@[h]) is Some implies {
        &&& e.main_ptrs@[h].unwrap() < e.core@.len()
        &&& e.core@[e.main_ptrs@[h].unwrap() as int].index.main_ptr == h
    } by {
        assert(e0.main_ptrs@[h] is Some);
        let k = e0.main_ptrs@[h].unwrap() as int;
        assert(e.core@[k].index.main_ptr == e0.core@[k].index.main_ptr);
    }
    assert forall|i: int| 0 <= i < e.core@.len() implies {
        &&& (#[trigger] e.core@[i]).player < g.players@.len()
        &&& e.core@[i].index.player < g.players@[e.core@[i].player as int].entities@.len()
        &&& g.players@[e.core@[i].player as int].entities@[e.core@[i].index.player as int] == i
    } by {
        assert(e0.core@[i].player < g0.players@.len());
    }
    assert forall|p: int, k: int| 0 <= p < g.players@.len() && 0 <= k < g.players@[p].entities@.len() implies {
        &&& (#[trigger] g.players@[p].entities@[k]) < e.core@.len()
        &&& e.core@[g.players@[p].entities@[k] as int].player == p
        &&& e.core@[g.players@[p].entities@[k] as int].index.player == k
    } by {
        assert(g0.players@[p].entities@[k] < e0.core@.len());
        let j = g0.players@[p].entities@[k] as int;
        assert(e.core@[j].player == e0.core@[j].player);
    }
    assert forall|i: int| 0 <= i < e.core@.len() implies g.id_generator.in_use@.contains((#[trigger] e.core@[i]).index.unique_id) by {
        assert(e.core@[i].index.unique_id == e0.core@[i].index.unique_id);
        assert(g0.id_generator.in_use@.contains(e0.core@[i].index.unique_id));
    }
    assert forall|i: int, j: int| 0 <= i < e.core@.len() && 0 <= j < e.core@.len() && i != j implies
        (#[trigger] e.core@[i]).index.unique_id != (#[trigger] e.core@[j]).index.unique_id by {
        assert(e.core@[i].index.unique_id == e0.core@[i].index.unique_id);
        assert(e.core@[j].index.unique_id == e0.core@[j].index.unique_id);
        assert(e0.core@[i].index.unique_id != e0.core@[j].index.unique_id);
    }
    assert(e.pointers_ok());
    assert(players_ok(g.players@, e.core@));
    assert(ids_ok(e.core@, g.id_generator));
}

/// A game whose players' lists changed, in step with the entities, and
/// whose entities changed nothing but their players and positions in the
/// lists, stays well formed.
pub proof fn lemma_lists_moved_keeps_wf(g: Game, g0: Game)
    requires
        g0.wf(),
        g == (Game {
            players: g.players,
            entities: Entities { core: g.entities.core, ..g0.entities },
            ..g0
        }),
        g.entities.core@.len() == g0.entities.core@.len(),
        forall|j: int| 0 <= j < g0.entities.core@.len() ==> {
            &&& (#[trigger] g.entities.core@[j]).index.main == g0.entities.core@[j].index.main
            &&& g.entities.core@[j].index.main_ptr == g0.entities.core@[j].index.main_ptr
            &&& g.entities.core@[j].index.unique_id == g0.entities.core@[j].index.unique_id
        },
        players_ok(g.players@, g.entities.core@),
    ensures
        g.wf(),
{
    let e = g.entities;
    let e0 = g0.entities;
    assert forall|k: int| 0 <= k < e.core@.len() implies {
        &&& #[trigger] e.core@[k].index.main == k
        &&& e.core@[k].index.main_ptr < e.main_ptrs@.len()
        &&& e.main_ptrs@[e.core@[k].index.main_ptr as int] == Some(k as usize)
    } by {
        assert(e0.core@[k].index.main == k);
    }
    assert forall|h: int| 0 <= h < e.main_ptrs@.len() && (#[trigger] e.main_ptrs@[h]) is Some implies {
        &&& e.main_ptrs@[h].unwrap() < e.core@.len()
        &&& e.core@[e.main_ptrs@[h].unwrap() as int].index.main_ptr == h
    } by {
        assert(e0.main_ptrs@[h] is Some);
        let k = e0.main_ptrs@[h].unwrap() as int;
        assert(e.core@[k].index.main_ptr == e0.core@[k].index.main_ptr);
    }
    assert forall|i: int| 0 <= i < e.core@.len() implies g.id_generator.in_use@.contains((#[trigger] e.core@[i]).index.unique_id) by {
        assert(g0.id_generator.in_use@.contains(e0.core@[i].index.unique_id));
    }
    assert forall|i: int, j: int| 0 <= i < e.core@.len() && 0 <= j < e.core@.len() && i != j implies
        (#[trigger] e.core@[i]).index.unique_id != (#[trigger] e.core@[j]).index.unique_id by {
        assert(e0.core@[i].index.unique_id != e0.core@[j].index.unique_id);
    }
    assert(e.pointers_ok());
    assert(ids_ok(e.core@, g.id_generator));
}

/// A game whose grid moved some records, consistently, and whose entities
/// changed at most their masses, timers, flags, positions on the map and
/// grid indexes, stays well formed.
pub proof fn lemma_regrid_keeps_wf(g: Game, g0: Game)
    requires
        g0.wf(),
        g.map.size == g0.map.size,
        g.map.size_field == g0.map.size_field,
        g.map.matrix_simple.wf(),
        g.map.matrix_simple.size == g0.map.matrix_simple.size,
        g.map.matrix_simple.size_field == g0.map.matrix_simple.size_field,
        g.map.matrix_simple.consistent(g.entities.index_matrix_simple@),
        g.players == g0.players,
        g.id_generator == g0.id_generator,
        g.entities.core == g0.entities.core,
        g.entities.main_ptrs == g0.entities.main_ptrs,
        g.entities.sizes_ok(),
        positions_ok(g.entities, g.map),
    ensures
        g.wf(),
{
    let e = g.entities;
    let e0 = g0.entities;
    assert(e.core@ == e0.core@);
    assert(e.main_ptrs@ == e0.main_ptrs@);
    assert(e.pointers_ok());
    assert(players_ok(g.players@, e.core@));
    assert(ids_ok(e.core@, g.id_generator));
}

impl Game {
    pub open spec fn wf(&self) -> bool {
        &&& self.map.wf()
        &&& self.entities.wf()
        &&& self.map.matrix_simple.consistent(self.entities.index_matrix_simple@)
        &&& players_ok(self.players@, self.entities.core@)
        &&& self.id_generator.wf()
        &&& ids_ok(self.entities.core@, self.id_generator)
        &&& positions_ok(self.entities, self.map)
    }

    /// A game in play on an empty map of 100 by 100 units, with the default
    /// settings and neither player nor entity.
    pub fn new(info: GameInfo) -> (game: Game)
        ensures
            game.wf(),
            crate::game::settings::default_settings(game.settings),
            game.state == GameState::Playing,
            game.step.actual_count == 0,
            game.map.size == (Size2D { width: 100, height: 100 }),
            game.players@.len() == 0,
            game.entities.core@.len() == 0,
            game.entities_characteristics@.len() == 0,
            game.buffer_add_entity@.len() == 0,
            game.buffer_kill_entity@.len() == 0,
            game.id_generator.can_generate(),
    {
        let map = GameMap::new(MapInfo { size: Size2D { width: 100, height: 100 } });
        let game = Game {
            settings: Settings::default(),
            state: GameState::Playing,
            step: GameStep::default(),
            editor_state: EditorState::default(),
            map,
            players: Vec::new(),
            entities: Entities::new(),
            entities_characteristics: Vec::new(),
            buffer_add_entity: Vec::new(),
            buffer_kill_entity: Vec::new(),
            id_generator: VecUniqueIndex::new(),
        };
        proof {
            assert forall|x: int, y: int, z: usize| game.map.matrix_simple.in_grid(x, y)
                && #[trigger] game.map.matrix_simple.cell(x, y).contains_key(z) implies false by {
                assert(game.map.matrix_simple.cell(x, y).dom().is_empty());
                assert(game.map.matrix_simple.cell(x, y).dom().contains(z));
            }
        }
        game
    }

    /// The game starts on the definitive map, whose real-number parts
    /// come in `layout`.
    pub fn init(&mut self, layout: &crate::map::premade::PremadeLayout)
        requires
            old(self).wf(),
            old(self).entities.main_ptrs@.len() + 801 < usize::MAX,
            old(self).id_generator.next + 801 < usize::MAX,
            layout.complete(),
        ensures
            crate::map::premade::definitive_made(*final(self), *layout),
    {
        proof {
            reveal_strlit("definitive");
            reveal_strlit("mona lisa");
            assert("definitive"@[0] != "mona lisa"@[0]);
        }
        crate::map::premade::create_premade_map(self, "definitive", layout);
    }

    /// Starts over: default settings, an empty map of 100 by 100 units, no
    /// player and no entity; every handle dies.
    pub fn clear(&mut self)
        requires
            old(self).wf(),
        ensures
            final(self).wf(),
            crate::game::settings::default_settings(final(self).settings),
            final(self).map.size == (Size2D { width: 100, height: 100 }),
            final(self).players@.len() == 0,
            final(self).entities.core@.len() == 0,
            forall|h: int| 0 <= h < final(self).entities.main_ptrs@.len() ==> #[trigger] final(self).entities.main_ptrs@[h] is None,
            final(self).state == old(self).state,
            final(self).id_generator == old(self).id_generator,
            final(self).entities.main_ptrs@.len() == old(self).entities.main_ptrs@.len(),
    {
        self.settings = Settings::default();
        self.map = GameMap::new(MapInfo { size: Size2D { width: 100, height: 100 } });
        self.players.clear();
        self.entities.clear();
        proof {
            let m = self.map.matrix_simple;
            assert forall|x: int, y: int, z: usize| m.in_grid(x, y) && #[trigger] m.cell(x, y).contains_key(z) implies false by {
                assert(m.cell(x, y).dom().is_empty());
                assert(m.cell(x, y).dom().contains(z));
            }
        }
    }

    /// The mass of all entities together.
    pub fn total_mass(&self) -> (total: i64)
        requires
            forall|k: int| 0 <= k <= self.entities.mass@.len() ==> i64::MIN <= #[trigger] sum_masses(self.entities.mass@.take(k)) <= i64::MAX,
        ensures
            total == sum_masses(self.entities.mass@),
    {
        let mut total: i64 = 0;
        let n = self.entities.mass.len();
        let mut i: usize = 0;
        while i < n
            invariant
                n == self.entities.mass@.len(),
                i <= n,
                total == sum_masses(self.entities.mass@.take(i as int)),
                forall|k: int| 0 <= k <= self.entities.mass@.len() ==> i64::MIN <= #[trigger] sum_masses(self.entities.mass@.take(k)) <= i64::MAX,
            decreases n - i,
        {
            proof {
                let t = self.entities.mass@.take(i as int + 1);
                assert(t.drop_last() =~= self.entities.mass@.take(i as int));
                assert(sum_masses(t) == sum_masses(t.drop_last()) + t.last());
            }
            total = total + self.entities.mass[i];
            i = i + 1;
        }
        assert(self.entities.mass@.take(n as int) =~= self.entities.mass@);
        total
    }

    /// Adds a player made from `info`, with no entity yet.
    pub fn new_player(&mut self, info: PlayerInfo)
        requires
            old(self).wf(),
        ensures
            final(self).wf(),
            final(self).players@.len() == old(self).players@.len() + 1,
            final(self).players@.drop_last() == old(self).players@,
            final(self).players@.last().kind == info.kind,
            final(self).players@.last().entities@.len() == 0,
            final(self).players@.last().cell_default_color == info.cell_default_color,
            final(self).players@.last().cell_default_texture == info.cell_default_texture,
            final(self).entities == old(self).entities,
            *final(self) == (Game { players: final(self).players, ..*old(self) }),
    {
        let player = Player::new(info);
        self.players.push(player);
        proof {
            assert(self.players@.drop_last() =~= old(self).players@);
            let n = self.entities.core@.len();
            assert forall|i: int| 0 <= i < n implies {
                &&& (#[trigger] self.entities.core@[i]).player < self.players@.len()
                &&& self.entities.core@[i].index.player < self.players@[self.entities.core@[i].player as int].entities@.len()
                &&& self.players@[self.entities.core@[i].player as int].entities@[self.entities.core@[i].index.player as int] == i
            } by {
                let p = self.entities.core@[i].player as int;
                assert(self.players@[p] == old(self).players@[p]);
            }
            assert forall|p: int, k: int| 0 <= p < self.players@.len() && 0 <= k < self.players@[p].entities@.len() implies {
                &&& (#[trigger] self.players@[p].entities@[k]) < n
                &&& self.entities.core@[self.players@[p].entities@[k] as int].player == p
                &&& self.entities.core@[self.players@[p].entities@[k] as int].index.player == k
            } by {
                if p < old(self).players@.len() {
                    assert(self.players@[p] == old(self).players@[p]);
                }
            }
        }
    }

    /// Adds an entity made from `info` to the arrays, to the grids and to the
    /// list of its player, with a fresh identifier.
    pub fn new_entity(&mut self, info: EntityInfo)
        requires
            old(self).wf(),
            info.player < old(self).players@.len(),
            info.characteristics.mass_min <= info.characteristics.mass_max,
            old(self).entities.core@.len() < usize::MAX,
            old(self).entities.main_ptrs@.len() < usize::MAX,
            old(self).id_generator.can_generate(),
        ensures
            final(self).wf(),
            final(self).map.size == old(self).map.size,
            final(self).entities.core@.len() == old(self).entities.core@.len() + 1,
            final(self).entities.main_ptrs@ == old(self).entities.main_ptrs@.push(Some(old(self).entities.core@.len() as usize)),
            final(self).id_generator.next <= old(self).id_generator.next + 1,
            final(self).buffer_add_entity == old(self).buffer_add_entity,
            final(self).buffer_kill_entity == old(self).buffer_kill_entity,
            final(self).entities_characteristics == old(self).entities_characteristics,
            final(self).settings == old(self).settings,
            final(self).state == old(self).state,
            final(self).players@.len() == old(self).players@.len(),
            final(self).players@[info.player as int].entities@ == old(self).players@[info.player as int].entities@.push(
                old(self).entities.core@.len() as usize,
            ),
            forall|p: int| 0 <= p < old(self).players@.len() && p != info.player ==>
                #[trigger] final(self).players@[p].entities@ == old(self).players@[p].entities@,
            forall|p: int| 0 <= p < old(self).players@.len() ==> {
                &&& (#[trigger] final(self).players@[p]).kind == old(self).players@[p].kind
                &&& final(self).players@[p].cell_default_color == old(self).players@[p].cell_default_color
                &&& final(self).players@[p].cell_default_texture == old(self).players@[p].cell_default_texture
            },
            ({
                let n = old(self).entities.core@.len() as int;
                let e = final(self).entities;
                &&& e.core@[n].player == info.player
                &&& e.core@[n].characteristics == info.characteristics
                &&& e.core@[n].color == info.color
                &&& e.core@[n].index.texture == info.texture
                &&& e.mass@[n] == crate::entity::entities::clamp_spec(
                    info.mass as int,
                    info.characteristics.mass_min as int,
                    info.characteristics.mass_max as int,
                )
                &&& e.position@[n].x == crate::entity::entities::clamp_spec(info.position.x as int, 0, old(self).map.max_spec().width as int)
                &&& e.position@[n].y == crate::entity::entities::clamp_spec(info.position.y as int, 0, old(self).map.max_spec().height as int)
                &&& e.timer@[n] == info.timer
                &&& initial_flags(e.flags@[n], info.characteristics)
                &&& final(self).map.matrix_simple.field_of(e.position@[n]) == (
                    e.index_matrix_simple@[n].x as int,
                    e.index_matrix_simple@[n].y as int,
                )
                &&& forall|i: int| 0 <= i < n ==> #[trigger] e.core@[i] == old(self).entities.core@[i]
                &&& forall|i: int| 0 <= i < n ==> #[trigger] e.timer@[i] == old(self).entities.timer@[i]
                &&& forall|i: int| 0 <= i < n ==> #[trigger] e.flags@[i] == old(self).entities.flags@[i]
                &&& forall|i: int| 0 <= i < n ==> #[trigger] e.index_matrix_simple@[i] == old(self).entities.index_matrix_simple@[i]
                &&& forall|i: int| 0 <= i < n ==> #[trigger] e.position@[i] == old(self).entities.position@[i]
                &&& forall|i: int| 0 <= i < n ==> #[trigger] e.mass@[i] == old(self).entities.mass@[i]
                &&& e.buffer@.len() == n + 1
                &&& forall|i: int| 0 <= i < n ==> #[trigger] e.buffer@[i] == old(self).entities.buffer@[i]
            }),
    {
        let player = info.player;
        let ghost old_game = *self;
        let index = self.entities.new_entity(&self.map, info);
        let ghost e0 = self.entities;
        let player_len = self.players[player].entities.len();
        self.entities.core[index].index.player = player_len;
        let uid = self.id_generator.gen_id();
        self.entities.core[index].index.unique_id = uid;
        let ghost m1 = self.map.matrix_simple;
        let ghost idx1 = self.entities.index_matrix_simple@;
        proof {
            assert(idx1.drop_last() == old_game.entities.index_matrix_simple@);
            let p = self.entities.position@[index as int];
            lemma_map_covers(self.map, p.x as int, p.y as int);
            assert(p == crate::geometry::Point2D { x: p.x as i32, y: p.y as i32 });
        }
        self.map.add_entity(&mut self.entities, index);
        proof {
            let idx2 = self.entities.index_matrix_simple@;
            assert(idx2 == idx1.update(idx1.len() - 1, idx2.last()));
            lemma_add_keeps_consistent(
                m1,
                self.map.matrix_simple,
                idx1,
                idx2,
                MatrixSimpleCellContent { entity: index, position: self.entities.position@[index as int] },
            );
        }
        self.players[player].entities.push(index);
        proof {
            let n = index as int;
            let e = self.entities;
            let oe = old_game.entities;
            assert forall|i: int| 0 <= i < n implies #[trigger] e.core@[i] == oe.core@[i] by {
                assert(e.core@[i] == oe.core@[i]);
            }
            assert forall|i: int| 0 <= i < e.core@.len() implies {
                &&& (#[trigger] e.core@[i]).player < self.players@.len()
                &&& e.core@[i].index.player < self.players@[e.core@[i].player as int].entities@.len()
                &&& self.players@[e.core@[i].player as int].entities@[e.core@[i].index.player as int] == i
            } by {
                if i < n {
                    assert(e.core@[i] == oe.core@[i]);
                    let q = oe.core@[i].player as int;
                    assert(self.players@[q].entities@[oe.core@[i].index.player as int]
                        == old_game.players@[q].entities@[oe.core@[i].index.player as int]);
                }
            }
            assert forall|p: int, k: int| 0 <= p < self.players@.len() && 0 <= k < self.players@[p].entities@.len() implies {
                &&& (#[trigger] self.players@[p].entities@[k]) < e.core@.len()
                &&& e.core@[self.players@[p].entities@[k] as int].player == p
                &&& e.core@[self.players@[p].entities@[k] as int].index.player == k
            } by {
                if p == player && k == player_len {
                } else {
                    assert(self.players@[p].entities@[k] == old_game.players@[p].entities@[k]);
                    let j = old_game.players@[p].entities@[k] as int;
                    assert(e.core@[j] == oe.core@[j]);
                }
            }
            assert forall|i: int| 0 <= i < e.core@.len() implies self.id_generator.in_use@.contains(
                (#[trigger] e.core@[i]).index.unique_id) by {
                if i < n {
                    assert(e.core@[i] == oe.core@[i]);
                }
            }
            assert forall|i: int, j: int| 0 <= i < e.core@.len() && 0 <= j < e.core@.len() && i != j
                implies (#[trigger] e.core@[i]).index.unique_id != (#[trigger] e.core@[j]).index.unique_id by {
                if i < n && j < n {
                    assert(e.core@[i] == oe.core@[i]);
                    assert(e.core@[j] == oe.core@[j]);
                } else if i < n {
                    assert(e.core@[i] == oe.core@[i]);
                    assert(old_game.id_generator.in_use@.contains(oe.core@[i].index.unique_id));
                } else {
                    assert(e.core@[j] == oe.core@[j]);
                    assert(old_game.id_generator.in_use@.contains(oe.core@[j].index.unique_id));
                }
            }
            assert(e.pointers_ok()) by {
                assert forall|i: int| 0 <= i < e.core@.len() implies {
                    &&& #[trigger] e.core@[i].index.main == i
                    &&& e.core@[i].index.main_ptr < e.main_ptrs@.len()
                    &&& e.main_ptrs@[e.core@[i].index.main_ptr as int] == Some(i as usize)
                } by {
                    assert(e.core@[i].index.main == e0.core@[i].index.main);
                    assert(e.core@[i].index.main_ptr == e0.core@[i].index.main_ptr);
                }
                assert forall|h: int| 0 <= h < e.main_ptrs@.len() && (#[trigger] e.main_ptrs@[h]) is Some implies {
                    &&& e.main_ptrs@[h].unwrap() < e.core@.len()
                    &&& e.core@[e.main_ptrs@[h].unwrap() as int].index.main_ptr == h
                } by {
                    assert(e.main_ptrs@[h] == e0.main_ptrs@[h]);
                    let i = e0.main_ptrs@[h].unwrap() as int;
                    assert(e0.core@[i].index.main_ptr == h);
                    assert(e.core@[i].index.main_ptr == e0.core@[i].index.main_ptr);
                }
            }
            assert(self.map.wf());
            assert(e.sizes_ok());
            assert(self.map.matrix_simple.consistent(e.index_matrix_simple@));
            assert(players_ok(self.players@, e.core@));
            assert(self.id_generator.wf());
            assert(ids_ok(e.core@, self.id_generator));
            assert forall|i: int| 0 <= i < e.position@.len() implies {
                &&& 0 <= (#[trigger] e.position@[i]).x <= self.map.max_spec().width
                &&& 0 <= e.position@[i].y <= self.map.max_spec().height
            } by {
                if i < n {
                    assert(e.position@[i] == oe.position@[i]);
                    assert(e0.position@[i] == oe.position@[i]);
                }
            }
            assert(positions_ok(e, self.map));
            assert forall|q: int| 0 <= q < old_game.players@.len() && q != player implies
                #[trigger] self.players@[q].entities@ == old_game.players@[q].entities@ by {}
        }
    }

    /// Removes the entity at `index` from the grids, from its player's list
    /// and from the arrays; the last entity takes its index, and the grids,
    /// its player's list and its handle follow it. Its identifier is given
    /// back.
    #[verifier::rlimit(80)]
    #[verifier::spinoff_prover]
    pub fn delete_entity(&mut self, index: usize)
        requires
            old(self).wf(),
            index < old(self).entities.core@.len(),
        ensures
            final(self).wf(),
            final(self).map.size == old(self).map.size,
            final(self).players@.len() == old(self).players@.len(),
            final(self).entities.core@.len() == old(self).entities.core@.len() - 1,
            final(self).entities.main_ptrs@.len() == old(self).entities.main_ptrs@.len(),
            final(self).id_generator.next == old(self).id_generator.next,
            final(self).id_generator.in_use@ == old(self).id_generator.in_use@.remove(
                old(self).entities.core@[index as int].index.unique_id,
            ),
            final(self).buffer_add_entity == old(self).buffer_add_entity,
            final(self).buffer_kill_entity == old(self).buffer_kill_entity,
            final(self).entities_characteristics == old(self).entities_characteristics,
            final(self).entities.main_ptrs@[old(self).entities.core@[index as int].index.main_ptr as int] is None,
            final(self).settings == old(self).settings,
            final(self).state == old(self).state,
            forall|h: int| 0 <= h < old(self).entities.main_ptrs@.len() && (#[trigger] old(self).entities.main_ptrs@[h]) is None
                ==> final(self).entities.main_ptrs@[h] is None,
            final(self).entities.position@ == old(self).entities.position@.update(index as int, old(self).entities.position@.last()).drop_last(),
            final(self).entities.mass@ == old(self).entities.mass@.update(index as int, old(self).entities.mass@.last()).drop_last(),
            final(self).entities.timer@ == old(self).entities.timer@.update(index as int, old(self).entities.timer@.last()).drop_last(),
            final(self).entities.flags@ == old(self).entities.flags@.update(index as int, old(self).entities.flags@.last()).drop_last(),
            final(self).players@[old(self).entities.core@[index as int].player as int].entities@.len()
                == old(self).players@[old(self).entities.core@[index as int].player as int].entities@.len() - 1,
            forall|h: int| 0 <= h < old(self).entities.main_ptrs@.len() && h != old(self).entities.core@[index as int].index.main_ptr
                && (#[trigger] old(self).entities.main_ptrs@[h]) is Some ==> ({
                    let i = old(self).entities.main_ptrs@[h].unwrap() as int;
                    let j = final(self).entities.main_ptrs@[h].unwrap() as int;
                    &&& final(self).entities.main_ptrs@[h] is Some
                    &&& j == if i == old(self).entities.core@.len() - 1 { index as int } else { i }
                    &&& final(self).entities.core@[j].player == old(self).entities.core@[i].player
                    &&& final(self).entities.position@[j] == old(self).entities.position@[i]
                    &&& final(self).entities.mass@[j] == old(self).entities.mass@[i]
                }),
    {
        let ghost g0 = *self;
        let ghost n = self.entities.core@.len() as int;
        let entity_player = self.entities.core[index].player;
        let entity_index_player = self.entities.core[index].index.player;
        let uid = self.entities.core[index].index.unique_id;
        let ghost l0 = self.players@[entity_player as int].entities@;
        proof {
            assert(l0[entity_index_player as int] == index);
        }
        self.id_generator.remove(uid);
        self.map.delete_entity(&self.entities, index);
        let ghost m1 = self.map.matrix_simple;
        self.players[entity_player].entities.swap_remove(entity_index_player);
        if self.players[entity_player].entities.len() != entity_index_player {
            let moved = self.players[entity_player].entities[entity_index_player];
            proof {
                assert(moved == l0.last());
                assert(g0.entities.core@[l0.last() as int].player == entity_player);
            }
            self.entities.core[moved].index.player = entity_index_player;
        }
        let ghost g1 = *self;
        proof {
            assert forall|i: int| 0 <= i < n implies {
                &&& (#[trigger] g1.entities.core@[i]).player == g0.entities.core@[i].player
                &&& g1.entities.core@[i].index.main == g0.entities.core@[i].index.main
                &&& g1.entities.core@[i].index.main_ptr == g0.entities.core@[i].index.main_ptr
                &&& g1.entities.core@[i].index.unique_id == g0.entities.core@[i].index.unique_id
                &&& g1.entities.core@[i].index.player == if entity_index_player < l0.len() - 1 && i == l0.last() {
                    entity_index_player
                } else {
                    g0.entities.core@[i].index.player
                }
            } by {}
            assert forall|p: int| 0 <= p < g0.players@.len() && p != entity_player implies
                #[trigger] g1.players@[p].entities@ == g0.players@[p].entities@ by {}
            lemma_players_after_list_removal(g0.players@, g0.entities.core@, index as int, g1.players@, g1.entities.core@);
        }
        self.entities.swap_remove(index);
        let ghost g2 = *self;
        if self.entities.len() != index {
            self.entities.store_main_ptr(index);
            let moved_player = self.entities.core[index].player;
            let moved_index_player = self.entities.core[index].index.player;
            proof {
                assert(g1.entities.core@[n - 1].player == moved_player);
                assert(g1.entities.core@[n - 1].index.player == moved_index_player);
            }
            self.players[moved_player].entities.set(moved_index_player, index);
            self.map.update_entity_index(&self.entities, index);
        }
        proof {
            let c1 = g1.entities.core@;
            let c2 = self.entities.core@;
            lemma_swap_remove_keeps_consistent(
                g0.map.matrix_simple,
                m1,
                self.map.matrix_simple,
                g0.entities.index_matrix_simple@,
                index as int,
            );
            assert(self.entities.index_matrix_simple@ == g0.entities.index_matrix_simple@.update(
                index as int,
                g0.entities.index_matrix_simple@.last(),
            ).drop_last());
            assert forall|j: int| 0 <= j < c2.len() implies {
                &&& (#[trigger] c2[j]).player == c1[if j == index { n - 1 } else { j }].player
                &&& c2[j].index.player == c1[if j == index { n - 1 } else { j }].index.player
                &&& c2[j].index.unique_id == c1[if j == index { n - 1 } else { j }].index.unique_id
                &&& c2[j].index.main_ptr == c1[if j == index { n - 1 } else { j }].index.main_ptr
                &&& c2[j].index.main == j
            } by {}
            assert forall|p: int| 0 <= p < g1.players@.len() implies #[trigger] self.players@[p].entities@ == if index < n - 1
                && p == c1.last().player {
                g1.players@[p].entities@.update(c1.last().index.player as int, index as usize)
            } else {
                g1.players@[p].entities@
            } by {}
            lemma_players_after_swap(g1.players@, c1, index as int, self.players@, c2);
            // identifiers
            assert forall|i: int| 0 <= i < c2.len() implies self.id_generator.in_use@.contains((#[trigger] c2[i]).index.unique_id) by {
                let src = if i == index { n - 1 } else { i };
                assert(src != index);
                assert(g0.entities.core@[src].index.unique_id != uid);
            }
            assert forall|i: int, j: int| 0 <= i < c2.len() && 0 <= j < c2.len() && i != j implies
                (#[trigger] c2[i]).index.unique_id != (#[trigger] c2[j]).index.unique_id by {
                let si = if i == index { n - 1 } else { i };
                let sj = if j == index { n - 1 } else { j };
                assert(si != sj);
            }
            // positions
            assert forall|i: int| 0 <= i < self.entities.position@.len() implies {
                &&& 0 <= (#[trigger] self.entities.position@[i]).x <= self.map.max_spec().width
                &&& 0 <= self.entities.position@[i].y <= self.map.max_spec().height
            } by {
                let src = if i == index { n - 1 } else { i };
                assert(self.entities.position@[i] == g0.entities.position@[src]);
            }
            // handles
            let h_del = g0.entities.core@[index as int].index.main_ptr as int;
            let h_last = g0.entities.core@[n - 1].index.main_ptr as int;
            assert(g0.entities.main_ptrs@[h_last] == Some((n - 1) as usize));
            let e = self.entities;
            assert forall|i: int| 0 <= i < e.core@.len() implies {
                &&& #[trigger] e.core@[i].index.main == i
                &&& e.core@[i].index.main_ptr < e.main_ptrs@.len()
                &&& e.main_ptrs@[e.core@[i].index.main_ptr as int] == Some(i as usize)
            } by {
                let src = if i == index { n - 1 } else { i };
                let h = g0.entities.core@[src].index.main_ptr as int;
                assert(g0.entities.main_ptrs@[h] == Some(src as usize));
            }
            assert forall|h: int| 0 <= h < e.main_ptrs@.len() && (#[trigger] e.main_ptrs@[h]) is Some implies {
                &&& e.main_ptrs@[h].unwrap() < e.core@.len()
                &&& e.core@[e.main_ptrs@[h].unwrap() as int].index.main_ptr == h
            } by {
                if index < n - 1 && h == h_last {
                } else {
                    assert(h != h_del);
                    assert(g0.entities.main_ptrs@[h] is Some);
                    let i = g0.entities.main_ptrs@[h].unwrap() as int;
                    assert(g0.entities.core@[i].index.main_ptr == h);
                    assert(i != index);
                    if index < n - 1 {
                        assert(i != n - 1);
                    }
                }
            }
            assert forall|h: int| 0 <= h < g0.entities.main_ptrs@.len() && (#[trigger] g0.entities.main_ptrs@[h]) is None
                implies e.main_ptrs@[h] is None by {
                if index < n - 1 && h == h_last {
                    assert(g0.entities.main_ptrs@[h_last] is Some);
                }
            }
            assert forall|h: int| 0 <= h < g0.entities.main_ptrs@.len() && h != h_del
                && (#[trigger] g0.entities.main_ptrs@[h]) is Some implies ({
                    let i = g0.entities.main_ptrs@[h].unwrap() as int;
                    let j = e.main_ptrs@[h].unwrap() as int;
                    &&& e.main_ptrs@[h] is Some
                    &&& j == if i == n - 1 { index as int } else { i }
                    &&& e.core@[j].player == g0.entities.core@[i].player
                    &&& e.position@[j] == g0.entities.position@[i]
                    &&& e.mass@[j] == g0.entities.mass@[i]
                }) by {
                let i = g0.entities.main_ptrs@[h].unwrap() as int;
                assert(g0.entities.core@[i].index.main_ptr == h);
                if i == n - 1 {
                    assert(h == h_last);
                }
            }
        }
    }
}

/// A game as plain descriptions, as it is saved: its settings, its
/// players, its entities, the stored characteristics and the size of its
/// map.
pub struct GameSerialize {
    pub settings: Settings,
    pub players_info: Vec<PlayerInfo>,
    pub entities_info: Vec<EntityInfo>,
    pub entities_characteristics: Vec<EntityCharacteristics>,
    pub map_info: MapInfo,
}

/// `info` describes entity `i` of `g` as it is.
pub open spec fn describes_entity(info: EntityInfo, g: Game, i: int) -> bool {
    &&& info.player == g.entities.core@[i].player
    &&& info.position == g.entities.position@[i]
    &&& info.mass == g.entities.mass@[i]
    &&& info.color == g.entities.core@[i].color
    &&& info.texture == g.entities.core@[i].index.texture
    &&& info.timer == g.entities.timer@[i]
    &&& same_characteristics(info.characteristics, g.entities.core@[i].characteristics)
}

/// `s` describes `g`: the same settings, each player's kind, list and
/// defaults, each entity as it is, the stored characteristics and the size
/// of the map.
pub open spec fn describes(s: GameSerialize, g: Game) -> bool {
    &&& same_settings(s.settings, g.settings)
    &&& s.players_info@.len() == g.players@.len()
    &&& forall|p: int| 0 <= p < g.players@.len() ==> {
        &&& (#[trigger] s.players_info@[p]).kind == g.players@[p].kind
        &&& s.players_info@[p].entities@ == g.players@[p].entities@
        &&& s.players_info@[p].cell_default_color == g.players@[p].cell_default_color
        &&& s.players_info@[p].cell_default_texture == g.players@[p].cell_default_texture
    }
    &&& s.entities_info@.len() == g.entities.core@.len()
    &&& forall|i: int| 0 <= i < g.entities.core@.len() ==> describes_entity(#[trigger] s.entities_info@[i], g, i)
    &&& s.entities_characteristics@.len() == g.entities_characteristics@.len()
    &&& forall|k: int| 0 <= k < g.entities_characteristics@.len() ==> same_characteristics(
        #[trigger] s.entities_characteristics@[k],
        g.entities_characteristics@[k],
    )
    &&& s.map_info.size == g.map.size
}

/// Entity `i` of `g` is made from `info`: its player, characteristics,
/// colour, texture and timers, its mass brought within its bounds and its
/// position onto the map.
pub open spec fn restored_entity(g: Game, i: int, info: EntityInfo) -> bool {
    &&& g.entities.core@[i].player == info.player
    &&& same_characteristics(g.entities.core@[i].characteristics, info.characteristics)
    &&& g.entities.core@[i].color == info.color
    &&& g.entities.core@[i].index.texture == info.texture
    &&& g.entities.timer@[i] == info.timer
    &&& g.entities.mass@[i] == clamp_spec(
        info.mass as int,
        info.characteristics.mass_min as int,
        info.characteristics.mass_max as int,
    )
    &&& g.entities.position@[i].x == clamp_spec(info.position.x as int, 0, g.map.max_spec().width as int)
    &&& g.entities.position@[i].y == clamp_spec(info.position.y as int, 0, g.map.max_spec().height as int)
}

/// `g` is the game that `s` describes, rebuilt: its settings, map size,
/// players (kinds and defaults), entities in order and stored
/// characteristics.
pub open spec fn restores(g: Game, s: GameSerialize) -> bool {
    &&& same_settings(g.settings, s.settings)
    &&& g.map.size == s.map_info.size
    &&& g.players@.len() == s.players_info@.len()
    &&& forall|p: int| 0 <= p < g.players@.len() ==> {
        &&& (#[trigger] g.players@[p]).kind == s.players_info@[p].kind
        &&& g.players@[p].cell_default_color == s.players_info@[p].cell_default_color
        &&& g.players@[p].cell_default_texture == s.players_info@[p].cell_default_texture
    }
    &&& g.entities.core@.len() == s.entities_info@.len()
    &&& forall|i: int| 0 <= i < g.entities.core@.len() ==> restored_entity(g, i, #[trigger] s.entities_info@[i])
    &&& g.entities_characteristics@.len() == s.entities_characteristics@.len()
    &&& forall|k: int| 0 <= k < g.entities_characteristics@.len() ==> same_characteristics(
        #[trigger] g.entities_characteristics@[k],
        s.entities_characteristics@[k],
    )
}

/// Saving a well-formed game and loading the save gives back the settings,
/// the map size, the players' kinds and defaults, and each entity in order
/// with its player, position, colour, texture, timers and characteristics,
/// its mass brought within its bounds.
pub proof fn lemma_save_then_load(g: Game, s: GameSerialize, h: Game)
    requires
        g.wf(),
        describes(s, g),
        restores(h, s),
        h.map.wf(),
    ensures
        h.map.size == g.map.size,
        h.players@.len() == g.players@.len(),
        forall|p: int| 0 <= p < g.players@.len() ==> {
            &&& (#[trigger] h.players@[p]).kind == g.players@[p].kind
            &&& h.players@[p].cell_default_color == g.players@[p].cell_default_color
            &&& h.players@[p].cell_default_texture == g.players@[p].cell_default_texture
        },
        h.entities.core@.len() == g.entities.core@.len(),
        forall|i: int| 0 <= i < g.entities.core@.len() ==> {
            &&& (#[trigger] h.entities.core@[i]).player == g.entities.core@[i].player
            &&& h.entities.position@[i] == g.entities.position@[i]
            &&& h.entities.core@[i].color == g.entities.core@[i].color
            &&& h.entities.core@[i].index.texture == g.entities.core@[i].index.texture
            &&& h.entities.timer@[i] == g.entities.timer@[i]
            &&& same_characteristics(h.entities.core@[i].characteristics, g.entities.core@[i].characteristics)
            &&& h.entities.mass@[i] == clamp_spec(
                g.entities.mass@[i] as int,
                g.entities.core@[i].characteristics.mass_min as int,
                g.entities.core@[i].characteristics.mass_max as int,
            )
        },
{
    assert forall|i: int| 0 <= i < g.entities.core@.len() implies {
        &&& (#[trigger] h.entities.core@[i]).player == g.entities.core@[i].player
        &&& h.entities.position@[i] == g.entities.position@[i]
        &&& h.entities.core@[i].color == g.entities.core@[i].color
        &&& h.entities.core@[i].index.texture == g.entities.core@[i].index.texture
        &&& h.entities.timer@[i] == g.entities.timer@[i]
        &&& same_characteristics(h.entities.core@[i].characteristics, g.entities.core@[i].characteristics)
        &&& h.entities.mass@[i] == clamp_spec(
            g.entities.mass@[i] as int,
            g.entities.core@[i].characteristics.mass_min as int,
            g.entities.core@[i].characteristics.mass_max as int,
        )
    } by {
        let info = s.entities_info@[i];
        assert(describes_entity(info, g, i));
        assert(restored_entity(h, i, info));
        assert(0 <= g.entities.position@[i].x <= g.map.max_spec().width);
        assert(0 <= g.entities.position@[i].y <= g.map.max_spec().height);
        lemma_same_characteristics_transitive(
            h.entities.core@[i].characteristics,
            info.characteristics,
            g.entities.core@[i].characteristics,
        );
        let p = h.entities.position@[i];
        assert(p.x == g.entities.position@[i].x);
        assert(p.y == g.entities.position@[i].y);
    }
}

/// `same_characteristics` is transitive.
pub proof fn lemma_same_characteristics_transitive(
    a: EntityCharacteristics,
    b: EntityCharacteristics,
    c: EntityCharacteristics,
)
    requires
        same_characteristics(a, b),
        same_characteristics(b, c),
    ensures
        same_characteristics(a, c),
    decreases a,
{
    match (a.throw_entity, b.throw_entity, c.throw_entity) {
        (Some(t), Some(u), Some(v)) => {
            match (t.characteristics_entity_thrown, u.characteristics_entity_thrown, v.characteristics_entity_thrown) {
                (
                    crate::entity::ThrownEntityCharacteristics::Custom(x),
                    crate::entity::ThrownEntityCharacteristics::Custom(y),
                    crate::entity::ThrownEntityCharacteristics::Custom(z),
                ) => {
                    lemma_same_characteristics_transitive(*x, *y, *z);
                },
                _ => {},
            }
        },
        _ => {},
    }
}

impl GameSerialize {
    /// The description of the game as it is: a copy of its settings, each
    /// player's kind, list and defaults, each entity in order, the stored
    /// characteristics and the size of the map.
    pub fn from_game(game: &Game) -> (s: GameSerialize)
        requires
            game.entities.sizes_ok(),
        ensures
            describes(s, *game),
    {
        let settings = game.settings.duplicate();
        let mut players_info: Vec<PlayerInfo> = Vec::new();
        let mut p: usize = 0;
        while p < game.players.len()
            invariant
                p <= game.players@.len(),
                players_info@.len() == p,
                forall|q: int| 0 <= q < p ==> {
                    &&& (#[trigger] players_info@[q]).kind == game.players@[q].kind
                    &&& players_info@[q].entities@ == game.players@[q].entities@
                    &&& players_info@[q].cell_default_color == game.players@[q].cell_default_color
                    &&& players_info@[q].cell_default_texture == game.players@[q].cell_default_texture
                },
            decreases game.players@.len() - p,
        {
            players_info.push(PlayerInfo::from_player(&game.players[p]));
            p = p + 1;
        }
        let mut entities_info: Vec<EntityInfo> = Vec::new();
        let mut i: usize = 0;
        while i < game.entities.core.len()
            invariant
                game.entities.sizes_ok(),
                i <= game.entities.core@.len(),
                entities_info@.len() == i,
                forall|j: int| 0 <= j < i ==> describes_entity(#[trigger] entities_info@[j], *game, j),
            decreases game.entities.core@.len() - i,
        {
            entities_info.push(EntityInfo::from_entity(game, i));
            i = i + 1;
        }
        let mut entities_characteristics: Vec<EntityCharacteristics> = Vec::new();
        let mut k: usize = 0;
        while k < game.entities_characteristics.len()
            invariant
                k <= game.entities_characteristics@.len(),
                entities_characteristics@.len() == k,
                forall|j: int| 0 <= j < k ==> same_characteristics(
                    #[trigger] entities_characteristics@[j],
                    game.entities_characteristics@[j],
                ),
            decreases game.entities_characteristics@.len() - k,
        {
            entities_characteristics.push(game.entities_characteristics[k].duplicate());
            k = k + 1;
        }
        GameSerialize {
            settings,
            players_info,
            entities_info,
            entities_characteristics,
            map_info: MapInfo { size: game.map.size },
        }
    }

    /// Rebuilds the game that the description gives: the game starts over,
    /// takes a copy of the settings and a map of the saved size, gets the
    /// players with their kinds and defaults, then the entities in order,
    /// then a copy of the stored characteristics.
    pub fn to_game(&self, game: &mut Game)
        requires
            old(game).wf(),
            map_size_ok(self.map_info.size),
            forall|i: int| 0 <= i < self.entities_info@.len() ==> {
                &&& (#[trigger] self.entities_info@[i]).player < self.players_info@.len()
                &&& self.entities_info@[i].characteristics.mass_min <= self.entities_info@[i].characteristics.mass_max
            },
            self.entities_info@.len() < usize::MAX,
            old(game).entities.main_ptrs@.len() + self.entities_info@.len() < usize::MAX,
            old(game).id_generator.next + self.entities_info@.len() < usize::MAX,
        ensures
            final(game).wf(),
            restores(*final(game), *self),
            final(game).state == old(game).state,
    {
        game.clear();
        game.settings = self.settings.duplicate();
        game.map = GameMap::new(self.map_info);
        proof {
            let m = game.map.matrix_simple;
            assert forall|x: int, y: int, z: usize| m.in_grid(x, y) && #[trigger] m.cell(x, y).contains_key(z) implies false by {
                assert(m.cell(x, y).dom().is_empty());
                assert(m.cell(x, y).dom().contains(z));
            }
            assert(game.entities.index_matrix_simple@.len() == 0);
        }
        let ghost g1 = *game;
        let mut p: usize = 0;
        while p < self.players_info.len()
            invariant
                game.wf(),
                p <= self.players_info@.len(),
                game.players@.len() == p,
                game.entities == g1.entities,
                game.map == g1.map,
                game.id_generator == g1.id_generator,
                game.state == g1.state,
                game.entities_characteristics == g1.entities_characteristics,
                same_settings(game.settings, self.settings),
                forall|q: int| 0 <= q < p ==> {
                    &&& (#[trigger] game.players@[q]).kind == self.players_info@[q].kind
                    &&& game.players@[q].cell_default_color == self.players_info@[q].cell_default_color
                    &&& game.players@[q].cell_default_texture == self.players_info@[q].cell_default_texture
                },
            decreases self.players_info@.len() - p,
        {
            let info = &self.players_info[p];
            let copy = PlayerInfo {
                kind: info.kind,
                entities: Vec::new(),
                cell_default_color: info.cell_default_color,
                cell_default_texture: info.cell_default_texture,
            };
            let ghost before = game.players@;
            game.new_player(copy);
            proof {
                assert forall|q: int| 0 <= q < p implies #[trigger] game.players@[q] == before[q] by {
                    assert(game.players@.drop_last()[q] == game.players@[q]);
                }
            }
            p = p + 1;
        }
        let ghost g2 = *game;
        let ghost n = self.entities_info@.len();
        let mut i: usize = 0;
        while i < self.entities_info.len()
            invariant
                game.wf(),
                i <= n,
                n == self.entities_info@.len(),
                game.entities.core@.len() == i,
                game.entities.main_ptrs@.len() == g2.entities.main_ptrs@.len() + i,
                g2.entities.main_ptrs@.len() + n < usize::MAX,
                game.id_generator.next <= g2.id_generator.next + i,
                g2.id_generator.next + n < usize::MAX,
                game.map.size == self.map_info.size,
                game.map.max_spec() == g2.map.max_spec(),
                game.state == g2.state,
                game.entities_characteristics == g2.entities_characteristics,
                same_settings(game.settings, self.settings),
                game.players@.len() == self.players_info@.len(),
                forall|q: int| 0 <= q < game.players@.len() ==> {
                    &&& (#[trigger] game.players@[q]).kind == self.players_info@[q].kind
                    &&& game.players@[q].cell_default_color == self.players_info@[q].cell_default_color
                    &&& game.players@[q].cell_default_texture == self.players_info@[q].cell_default_texture
                },
                forall|j: int| 0 <= j < n ==> {
                    &&& (#[trigger] self.entities_info@[j]).player < self.players_info@.len()
                    &&& self.entities_info@[j].characteristics.mass_min <= self.entities_info@[j].characteristics.mass_max
                },
                forall|j: int| 0 <= j < i ==> restored_entity(*game, j, #[trigger] self.entities_info@[j]),
            decreases n - i,
        {
            let ghost before = *game;
            let e = &self.entities_info[i];
            let info = EntityInfo {
                player: e.player,
                position: e.position,
                mass: e.mass,
                color: e.color,
                texture: e.texture,
                timer: e.timer,
                characteristics: e.characteristics.duplicate(),
            };
            proof {
                assert(self.entities_info@[i as int] == *e);
            }
            game.new_entity(info);
            proof {
                assert forall|j: int| 0 <= j < i + 1 implies restored_entity(*game, j, #[trigger] self.entities_info@[j]) by {
                    if j < i {
                        assert(restored_entity(before, j, self.entities_info@[j]));
                        assert(game.entities.core@[j] == before.entities.core@[j]);
                        assert(game.entities.timer@[j] == before.entities.timer@[j]);
                        assert(game.entities.mass@[j] == before.entities.mass@[j]);
                        assert(game.entities.position@[j] == before.entities.position@[j]);
                    } else {
                        assert(game.entities.core@[j].characteristics == info.characteristics);
                    }
                }
            }
            i = i + 1;
        }
        let mut chars: Vec<EntityCharacteristics> = Vec::new();
        let mut k: usize = 0;
        while k < self.entities_characteristics.len()
            invariant
                k <= self.entities_characteristics@.len(),
                chars@.len() == k,
                forall|j: int| 0 <= j < k ==> same_characteristics(#[trigger] chars@[j], self.entities_characteristics@[j]),
            decreases self.entities_characteristics@.len() - k,
        {
            chars.push(self.entities_characteristics[k].duplicate());
            k = k + 1;
        }
        game.entities_characteristics = chars;
    }
}

/// The list entries of entity `i` once entity `e`, of player `op` at
/// position `k0` of the list `l0`, has moved to player `np`: the entity
/// moved into its old place takes that position.
pub open spec fn position_after_move(old_pos: usize, i: int, op: int, np: int, k0: int, l0: Seq<usize>) -> usize {
    if op != np && k0 < l0.len() - 1 && i == l0.last() {
        k0 as usize
    } else {
        old_pos
    }
}

/// Player `p`'s list once entity `e`, of player `op` at position `k0` of
/// the list `l0`, has moved to player `np`.
pub open spec fn list_after_move(old_list: Seq<usize>, p: int, e: usize, op: int, np: int, k0: int, l0: Seq<usize>) -> Seq<usize> {
    if op == np || (p != op && p != np) {
        old_list
    } else if p == op {
        l0.update(k0, l0.last()).drop_last()
    } else {
        old_list.push(e)
    }
}

/// `g1` is `g` after `Entities::update` wrote `info` into entity `e`.
pub open spec fn updated(g1: Game, g: Game, e: int, info: EntityInfo) -> bool {
    let c0 = g.entities.core@[e];
    let op = c0.player as int;
    let np = info.player as int;
    let k0 = c0.index.player as int;
    let l0 = g.players@[op].entities@;
    let fe = g1.entities;
    &&& fe.core@.len() == g.entities.core@.len()
    &&& fe.core@[e] == (EntityCore {
        player: info.player,
        characteristics: info.characteristics,
        color: info.color,
        index: EntityIndex {
            texture: info.texture,
            player: if op == np { c0.index.player } else { g.players@[np].entities@.len() as usize },
            ..c0.index
        },
        ..c0
    })
    &&& fe.position@ == g.entities.position@.update(e, info.position)
    &&& fe.mass@ == g.entities.mass@.update(e, info.mass)
    &&& fe.timer@ == g.entities.timer@.update(e, info.timer)
    &&& fe.flags@.len() == g.entities.flags@.len()
    &&& initial_flags(fe.flags@[e], info.characteristics)
    &&& forall|i: int| 0 <= i < fe.flags@.len() && i != e ==> #[trigger] fe.flags@[i] == g.entities.flags@[i]
    &&& forall|i: int| 0 <= i < fe.core@.len() && i != e ==> #[trigger] fe.core@[i] == (EntityCore {
        index: EntityIndex {
            player: position_after_move(g.entities.core@[i].index.player, i, op, np, k0, l0),
            ..g.entities.core@[i].index
        },
        ..g.entities.core@[i]
    })
    &&& g1.players@.len() == g.players@.len()
    &&& forall|p: int| 0 <= p < g.players@.len() ==> {
        &&& (#[trigger] g1.players@[p]).kind == g.players@[p].kind
        &&& g1.players@[p].cell_default_color == g.players@[p].cell_default_color
        &&& g1.players@[p].cell_default_texture == g.players@[p].cell_default_texture
        &&& g1.players@[p].entities@ == list_after_move(g.players@[p].entities@, p, (e as usize), op, np, k0, l0)
    }
}

/// The capability flags of an entity agree with its characteristics, as
/// they do when it is made.
pub open spec fn capabilities_agree(f: crate::entity::flags::EntityFlags, c: crate::entity::EntityCharacteristics) -> bool {
    &&& f.has(crate::entity::flags::GRAVITY) == (c.gravity is Some)
    &&& f.has(crate::entity::flags::THROW) == (c.throw_entity is Some)
    &&& f.has(crate::entity::flags::EATER) == c.killer
    &&& f.has(crate::entity::flags::COLLIDE) == c.collide
    &&& f.has(crate::entity::flags::MOVABLE) == c.affected_by_gravity
    &&& f.has(crate::entity::flags::BOUNCE) == c.bounce
}

/// What `EntityInfo::from_entity` reads of an entity, written back by
/// `Entities::update`, leaves the game as it was, but for the grid's
/// bookkeeping flags of that entity, which are cleared, and for its
/// characteristics, which are an equal copy; this when its capability
/// flags agree with its characteristics.
pub proof fn lemma_update_round_trip(g1: Game, g: Game, e: int, info: EntityInfo)
    requires
        g.wf(),
        0 <= e < g.entities.core@.len(),
        info.player == g.entities.core@[e].player,
        info.position == g.entities.position@[e],
        info.mass == g.entities.mass@[e],
        info.color == g.entities.core@[e].color,
        info.texture == g.entities.core@[e].index.texture,
        info.timer == g.entities.timer@[e],
        crate::entity::same_characteristics(info.characteristics, g.entities.core@[e].characteristics),
        capabilities_agree(g.entities.flags@[e], g.entities.core@[e].characteristics),
        updated(g1, g, e, info),
    ensures
        g1.entities.core@[e] == (EntityCore { characteristics: g1.entities.core@[e].characteristics, ..g.entities.core@[e] }),
        crate::entity::same_characteristics(g1.entities.core@[e].characteristics, g.entities.core@[e].characteristics),
        g1.entities.position@ == g.entities.position@,
        g1.entities.mass@ == g.entities.mass@,
        g1.entities.timer@ == g.entities.timer@,
        forall|i: int| 0 <= i < g.entities.core@.len() && i != e ==> #[trigger] g1.entities.core@[i] == g.entities.core@[i]
            && g1.entities.flags@[i] == g.entities.flags@[i],
        forall|b: u32| crate::entity::flags::is_flag(b) ==> #[trigger] g1.entities.flags@[e].has(b) == (g.entities.flags@[e].has(b)
            && b != crate::entity::flags::MOVED && b != crate::entity::flags::MASS_CHANGED
            && b != crate::entity::flags::MATRIX_SIMPLE_TO_CHANGE),
        forall|p: int| 0 <= p < g.players@.len() ==> #[trigger] g1.players@[p].entities@ == g.players@[p].entities@,
{
    let c = g.entities.core@[e].characteristics;
    let d = info.characteristics;
    assert(d.gravity == c.gravity);
    assert(d.throw_entity is Some <==> c.throw_entity is Some);
    assert(g1.entities.position@ =~= g.entities.position@);
    assert(g1.entities.mass@ =~= g.entities.mass@);
    assert(g1.entities.timer@ =~= g.entities.timer@);
}

impl Entities {
    /// Entity `e` leaves its player's list by swap-removal and joins the
    /// end of player `np`'s list; nothing else of the entities changes.
    fn move_to_player(game: &mut Game, e: usize, np: usize)
        requires
            old(game).wf(),
            e < old(game).entities.core@.len(),
            np < old(game).players@.len(),
        ensures
            final(game).wf(),
            *final(game) == (Game {
                players: final(game).players,
                entities: Entities { core: final(game).entities.core, ..old(game).entities },
                ..*old(game)
            }),
            ({
                let c0 = old(game).entities.core@[e as int];
                let op = c0.player as int;
                let k0 = c0.index.player as int;
                let l0 = old(game).players@[op].entities@;
                let fc = final(game).entities.core@;
                &&& fc.len() == old(game).entities.core@.len()
                &&& fc[e as int] == (EntityCore {
                    player: np,
                    index: EntityIndex {
                        player: if op == np { c0.index.player } else { old(game).players@[np as int].entities@.len() as usize },
                        ..c0.index
                    },
                    ..c0
                })
                &&& forall|i: int| 0 <= i < fc.len() && i != e ==> #[trigger] fc[i] == (EntityCore {
                    index: EntityIndex {
                        player: position_after_move(old(game).entities.core@[i].index.player, i, op, np as int, k0, l0),
                        ..old(game).entities.core@[i].index
                    },
                    ..old(game).entities.core@[i]
                })
                &&& final(game).players@.len() == old(game).players@.len()
                &&& forall|p: int| 0 <= p < old(game).players@.len() ==> {
                    &&& (#[trigger] final(game).players@[p]).kind == old(game).players@[p].kind
                    &&& final(game).players@[p].cell_default_color == old(game).players@[p].cell_default_color
                    &&& final(game).players@[p].cell_default_texture == old(game).players@[p].cell_default_texture
                    &&& final(game).players@[p].entities@ == list_after_move(old(game).players@[p].entities@, p, e, op, np as int, k0, l0)
                }
            }),
    {
        let ghost g0 = *game;
        let op = game.entities.core[e].player;
        if op == np {
            return;
        }
        let k = game.entities.core[e].index.player;
        let ghost l0 = g0.players@[op as int].entities@;
        proof {
            assert(l0[k as int] == e);
        }
        game.players[op].entities.swap_remove(k);
        if k < game.players[op].entities.len() {
            let moved = game.players[op].entities[k];
            proof {
                assert(moved == l0.last());
                assert(g0.entities.core@[l0.last() as int].player == op);
            }
            game.entities.core[moved].index.player = k;
        }
        let ghost g1 = *game;
        proof {
            assert forall|p: int| 0 <= p < g0.players@.len() && p != op implies
                #[trigger] g1.players@[p].entities@ == g0.players@[p].entities@ by {}
            lemma_players_after_list_removal(g0.players@, g0.entities.core@, e as int, g1.players@, g1.entities.core@);
        }
        let len = game.players[np].entities.len();
        game.entities.core[e].player = np;
        game.entities.core[e].index.player = len;
        game.players[np].entities.push(e);
        proof {
            assert forall|p: int| 0 <= p < g1.players@.len() && p != np implies
                #[trigger] game.players@[p].entities@ == g1.players@[p].entities@ by {}
            lemma_players_after_list_insert(g1.players@, g1.entities.core@, e as int, np as int, game.players@, game.entities.core@);
            lemma_lists_moved_keeps_wf(*game, g0);
        }
    }

    /// Rewrites entity `entity_index` from `info`: it moves to the end of
    /// the list of its new player (the entry moved into its old place in
    /// its former player's list learns its new position), and takes the
    /// position, mass, timers, characteristics, colour and texture of
    /// `info`, with the flags that its characteristics give. The grid
    /// follows at the next update of the map.
    pub fn update(game: &mut Game, entity_index: usize, info: EntityInfo)
        requires
            old(game).wf(),
            entity_index < old(game).entities.core@.len(),
            info.player < old(game).players@.len(),
            0 <= info.position.x <= old(game).map.max_spec().width,
            0 <= info.position.y <= old(game).map.max_spec().height,
        ensures
            final(game).wf(),
            *final(game) == (Game {
                players: final(game).players,
                entities: Entities {
                    core: final(game).entities.core,
                    position: final(game).entities.position,
                    mass: final(game).entities.mass,
                    timer: final(game).entities.timer,
                    flags: final(game).entities.flags,
                    ..old(game).entities
                },
                ..*old(game)
            }),
            updated(*final(game), *old(game), entity_index as int, info),
    {
        let e = entity_index;
        Self::move_to_player(game, e, info.player);
        let ghost g2 = *game;
        let f = flags_of(&info.characteristics);
        game.entities.position.set(e, info.position);
        game.entities.mass.set(e, info.mass);
        game.entities.timer.set(e, info.timer);
        game.entities.flags.set(e, f);
        game.entities.core[e].characteristics = info.characteristics;
        game.entities.core[e].color = info.color;
        game.entities.core[e].index.texture = info.texture;
        proof {
            assert forall|i: int| 0 <= i < game.entities.position@.len() implies {
                &&& 0 <= (#[trigger] game.entities.position@[i]).x <= game.map.max_spec().width
                &&& 0 <= game.entities.position@[i].y <= game.map.max_spec().height
            } by {
                if i != e {
                    assert(game.entities.position@[i] == g2.entities.position@[i]);
                }
            }
            lemma_same_structure_keeps_wf(*game, g2);
        }
    }
}
} // verus!
