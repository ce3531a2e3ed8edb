use vstd::prelude::*;
use crate::entity::EntityColor;

verus! {

/// Who controls a player's entities.
#[derive(Clone, Copy, PartialEq, Eq, Structural, Debug)]
pub enum PlayerKind {
    Player,
    Neutral,
}

impl Default for PlayerKind {
    fn default() -> (k: PlayerKind)
        ensures
            k == PlayerKind::Neutral,
    {
        PlayerKind::Neutral
    }
}

/// What a player is made from, and what is saved of it.
#[derive(Clone, Debug)]
pub struct PlayerInfo {
    pub kind: PlayerKind,
    pub entities: Vec<usize>,
    pub cell_default_color: EntityColor,
    pub cell_default_texture: usize,
}

impl Default for PlayerInfo {
    fn default() -> (info: PlayerInfo)
        ensures
            info.kind == PlayerKind::Neutral,
            info.entities@.len() == 0,
            crate::entity::is_default_color(info.cell_default_color),
            info.cell_default_texture == 0,
    {
        PlayerInfo {
            kind: PlayerKind::Neutral,
            entities: Vec::new(),
            cell_default_color: EntityColor::default(),
            cell_default_texture: 0,
        }
    }
}

impl PlayerInfo {
    /// The player's kind, its list of entities, and its defaults.
    pub fn from_player(player: &Player) -> (info: PlayerInfo)
        ensures
            info.kind == player.kind,
            info.entities@ == player.entities@,
            info.cell_default_color == player.cell_default_color,
            info.cell_default_texture == player.cell_default_texture,
    {
        PlayerInfo {
            kind: player.kind,
            entities: player.entities.clone(),
            cell_default_color: player.cell_default_color,
            cell_default_texture: player.cell_default_texture,
        }
    }
}

/// A change to a player's list of entities, queued during an update.
#[derive(Clone, Copy, PartialEq, Eq, Structural, Debug)]
pub enum PlayerAction {
    /// The entity at this index joins the player.
    AddEntity(usize),
    /// The entry at this position of the player's list leaves it.
    KillEntity(usize),
    /// The entity behind this handle moved; its entry follows it.
    Move(usize),
}

/// A player: the indexes of its entities, its defaults and its queue of
/// pending changes.
pub struct Player {
    pub kind: PlayerKind,
    pub entities: Vec<usize>,
    pub cell_default_color: EntityColor,
    pub cell_default_texture: usize,
    pub buffer: Vec<PlayerAction>,
}

impl Player {
    /// A player of the kind and defaults of `info`, with no entity yet.
    pub fn new(info: PlayerInfo) -> (player: Player)
        ensures
            player.kind == info.kind,
            player.entities@.len() == 0,
            player.cell_default_color == info.cell_default_color,
            player.cell_default_texture == info.cell_default_texture,
            player.buffer@.len() == 0,
    {
        Player {
            kind: info.kind,
            entities: Vec::new(),
            cell_default_color: info.cell_default_color,
            cell_default_texture: info.cell_default_texture,
            buffer: Vec::new(),
        }
    }
}

} // verus!
