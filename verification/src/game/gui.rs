use vstd::prelude::*;
use super::{Game, GameState};
use crate::geometry::{Point2D, Size2D};

verus! {

/// What a button of the menus asks for: nothing, the editor, leaving it,
/// the options, the graphics options, a map by name (or a new one), or
/// quitting.
#[derive(Clone, Debug, PartialEq, Eq)]
pub enum Action {
    Nothing,
    Editor,
    LeaveEditor,
    Options,
    GraphicsOptions,
    OpenMap(Option<String>),
    Quit,
}

/// Whether the in-game menu is open, and on which page.
#[derive(Clone, Debug)]
pub enum GUIState {
    Open(Action),
    Closed,
}

/// What the debug panel shows: the total mass, and the entity chosen by
/// index.
#[derive(Clone, Copy, Debug)]
pub struct GuiDebugInfo {
    pub total_mass: bool,
    pub entity_index_choosen: i32,
}

impl Default for GuiDebugInfo {
    fn default() -> (d: GuiDebugInfo)
        ensures
            !d.total_mass,
            d.entity_index_choosen == 0,
    {
        GuiDebugInfo { total_mass: false, entity_index_choosen: 0 }
    }
}

/// What the interface asks of the window.
#[derive(Clone, Copy, Debug, PartialEq, Eq, Structural)]
pub enum GuiAction {
    Resize(u32, u32),
    Fullscreen,
    NotFullscreen,
}

/// What the player does with the in-game menu during a frame.
#[derive(Clone, Debug)]
pub enum MenuEvent {
    /// A frame in which no button is pressed: the open page still has its
    /// effect.
    Frame,
    /// The arrow at the top of the screen.
    Arrow,
    Options,
    /// "Editor", shown while playing.
    Editor,
    /// "Leave Editor", shown in the editor.
    LeaveEditor,
    Graphics,
    Maps,
    Quit,
    /// "Return" or "Cancel" in a page, or a click beside a confirmation.
    Back,
    /// A map picked in the list of maps.
    ChooseMap(String),
    /// "Return" in the confirmation of a map, or a click beside it.
    BackToMaps,
    /// "Confirmation" of the chosen map or of quitting.
    Confirm,
}

/// What the menu asks of the program once the frame is drawn.
#[derive(Clone, Debug)]
pub enum MenuRequest {
    Nothing,
    LoadMap(String),
    Quit,
}

/// The page the menu shows after `event`, from page `a`, before the page's
/// own effect.
pub open spec fn next_page(a: Action, event: MenuEvent, state: GameState) -> Action {
    match event {
        MenuEvent::Options => Action::Options,
        MenuEvent::Graphics => Action::GraphicsOptions,
        MenuEvent::Maps => Action::OpenMap(None),
        MenuEvent::Quit => Action::Quit,
        MenuEvent::Editor => if state == GameState::Playing { Action::Editor } else { a },
        MenuEvent::LeaveEditor => if state == GameState::Editor { Action::LeaveEditor } else { a },
        MenuEvent::Back => match a {
            Action::Options | Action::GraphicsOptions | Action::OpenMap(_) | Action::Quit => Action::Nothing,
            _ => a,
        },
        MenuEvent::ChooseMap(name) => match a {
            Action::OpenMap(_) => Action::OpenMap(Some(name)),
            _ => a,
        },
        MenuEvent::BackToMaps => match a {
            Action::OpenMap(Some(_)) => Action::OpenMap(None),
            _ => a,
        },
        _ => a,
    }
}

/// The screen after page `a` had its effect on `state`: the editor page
/// opens the editor, the page that leaves it goes back to play.
pub open spec fn state_after(a: Action, state: GameState) -> GameState {
    match a {
        Action::Editor => GameState::Editor,
        Action::LeaveEditor => GameState::Playing,
        _ => state,
    }
}

/// The button pressed resets what the editor is doing: "Editor" while
/// playing, "Leave Editor" in the editor.
pub open spec fn resets_editor(event: MenuEvent, state: GameState) -> bool {
    ||| (event is Editor && state == GameState::Playing)
    ||| (event is LeaveEditor && state == GameState::Editor)
}

impl GUIState {
    /// One frame of the in-game menu. Closed, the arrow opens it on no
    /// page. Open, the arrow closes it; the buttons choose a page ("Editor"
    /// only while playing, "Leave Editor" only in the editor, both
    /// resetting what the editor is doing); "Return" goes back from a page,
    /// and from the confirmation of a map to the list of maps; a confirmed
    /// map is asked to be loaded, which closes the menu and marks the map
    /// as changed, and a confirmed exit asks to quit. The editor page opens
    /// the editor and the page that leaves it goes back to play.
    pub fn step(self, event: MenuEvent, game: &mut Game) -> (r: (GUIState, MenuRequest))
        ensures
            match self {
                GUIState::Closed => {
                    &&& *final(game) == *old(game)
                    &&& r.1 is Nothing
                    &&& if event is Arrow { r.0 == GUIState::Open(Action::Nothing) } else { r.0 is Closed }
                },
                GUIState::Open(a) => match (event, a) {
                    (MenuEvent::Arrow, _) => {
                        &&& r.0 is Closed
                        &&& r.1 is Nothing
                        &&& *final(game) == (Game { state: state_after(a, old(game).state), ..*old(game) })
                    },
                    (MenuEvent::Confirm, Action::OpenMap(Some(name))) => {
                        &&& r.0 is Closed
                        &&& (r.1 matches MenuRequest::LoadMap(n) && n@ == name@)
                        &&& *final(game) == (Game { step: super::GameStep { changed_map: true, ..old(game).step }, ..*old(game) })
                    },
                    (MenuEvent::Confirm, Action::Quit) => {
                        &&& r.0 == GUIState::Open(Action::Quit)
                        &&& r.1 is Quit
                        &&& *final(game) == *old(game)
                    },
                    _ => {
                        let page = next_page(a, event, old(game).state);
                        &&& r.0 == GUIState::Open(page)
                        &&& r.1 is Nothing
                        &&& final(game).state == state_after(page, old(game).state)
                        &&& resets_editor(event, old(game).state) ==> final(game).editor_state == (super::EditorState {
                            selection: None,
                            selected: None,
                            entity_selected: None,
                            entity_selected_atomic: None,
                            entity_hovered: None,
                            entity_hovered_atomic: None,
                            ..old(game).editor_state
                        })
                        &&& !resets_editor(event, old(game).state) ==> final(game).editor_state == old(game).editor_state
                        &&& *final(game) == (Game { state: final(game).state, editor_state: final(game).editor_state, ..*old(game) })
                    },
                },
            },
    {
        match self {
            GUIState::Closed => {
                match event {
                    MenuEvent::Arrow => (GUIState::Open(Action::Nothing), MenuRequest::Nothing),
                    _ => (GUIState::Closed, MenuRequest::Nothing),
                }
            },
            GUIState::Open(a) => {
                match event {
                    MenuEvent::Arrow => {
                        Self::apply_page(&a, game);
                        (GUIState::Closed, MenuRequest::Nothing)
                    },
                    MenuEvent::Confirm => {
                        match a {
                            Action::OpenMap(Some(name)) => {
                                game.step.changed_map = true;
                                (GUIState::Closed, MenuRequest::LoadMap(name))
                            },
                            Action::Quit => (GUIState::Open(Action::Quit), MenuRequest::Quit),
                            other => {
                                Self::apply_page(&other, game);
                                (GUIState::Open(other), MenuRequest::Nothing)
                            },
                        }
                    },
                    MenuEvent::Frame => {
                        Self::apply_page(&a, game);
                        (GUIState::Open(a), MenuRequest::Nothing)
                    },
                    MenuEvent::Options => {
                        (GUIState::Open(Action::Options), MenuRequest::Nothing)
                    },
                    MenuEvent::Graphics => {
                        (GUIState::Open(Action::GraphicsOptions), MenuRequest::Nothing)
                    },
                    MenuEvent::Maps => {
                        (GUIState::Open(Action::OpenMap(None)), MenuRequest::Nothing)
                    },
                    MenuEvent::Quit => {
                        (GUIState::Open(Action::Quit), MenuRequest::Nothing)
                    },
                    MenuEvent::Editor => {
                        if game.state == GameState::Playing {
                            game.editor_state.reinit();
                            game.state = GameState::Editor;
                            (GUIState::Open(Action::Editor), MenuRequest::Nothing)
                        } else {
                            Self::apply_page(&a, game);
                            (GUIState::Open(a), MenuRequest::Nothing)
                        }
                    },
                    MenuEvent::LeaveEditor => {
                        if game.state == GameState::Editor {
                            game.editor_state.reinit();
                            game.state = GameState::Playing;
                            (GUIState::Open(Action::LeaveEditor), MenuRequest::Nothing)
                        } else {
                            Self::apply_page(&a, game);
                            (GUIState::Open(a), MenuRequest::Nothing)
                        }
                    },
                    MenuEvent::Back => {
                        match a {
                            Action::Options | Action::GraphicsOptions | Action::OpenMap(_) | Action::Quit => {
                                (GUIState::Open(Action::Nothing), MenuRequest::Nothing)
                            },
                            other => {
                                Self::apply_page(&other, game);
                                (GUIState::Open(other), MenuRequest::Nothing)
                            },
                        }
                    },
                    MenuEvent::ChooseMap(name) => {
                        match a {
                            Action::OpenMap(_) => (GUIState::Open(Action::OpenMap(Some(name))), MenuRequest::Nothing),
                            other => {
                                Self::apply_page(&other, game);
                                (GUIState::Open(other), MenuRequest::Nothing)
                            },
                        }
                    },
                    MenuEvent::BackToMaps => {
                        match a {
                            Action::OpenMap(Some(_)) => (GUIState::Open(Action::OpenMap(None)), MenuRequest::Nothing),
                            other => {
                                Self::apply_page(&other, game);
                                (GUIState::Open(other), MenuRequest::Nothing)
                            },
                        }
                    },
                }
            },
        }
    }

    /// The effect of page `a` on the screen.
    fn apply_page(a: &Action, game: &mut Game)
        ensures
            *final(game) == (Game { state: state_after(*a, old(game).state), ..*old(game) }),
    {
        match a {
            Action::Editor => {
                game.state = GameState::Editor;
            },
            Action::LeaveEditor => {
                game.state = GameState::Playing;
            },
            _ => {},
        }
    }
}

/// A rectangle of the screen that the interface covers.
#[derive(Clone, Copy, Debug)]
pub struct GuiComponent {
    pub position: Point2D,
    pub size: Size2D,
}

/// The point lies in the component, its left and top edges included.
pub open spec fn covers(c: GuiComponent, p: Point2D) -> bool {
    &&& c.position.x <= p.x < c.position.x + c.size.width
    &&& c.position.y <= p.y < c.position.y + c.size.height
}

/// Whether the point of the screen lies on one of the components of the
/// interface.
pub fn is_on_gui(list: &Vec<GuiComponent>, position: Point2D) -> (b: bool)
    requires
        forall|k: int| 0 <= k < list@.len() ==> {
            &&& i32::MIN <= (#[trigger] list@[k]).position.x + list@[k].size.width <= i32::MAX
            &&& i32::MIN <= list@[k].position.y + list@[k].size.height <= i32::MAX
        },
    ensures
        b == exists|k: int| 0 <= k < list@.len() && covers(#[trigger] list@[k], position),
{
    let mut result = false;
    let mut k: usize = 0;
    while k < list.len()
        invariant
            k <= list@.len(),
            forall|j: int| 0 <= j < list@.len() ==> {
                &&& i32::MIN <= (#[trigger] list@[j]).position.x + list@[j].size.width <= i32::MAX
                &&& i32::MIN <= list@[j].position.y + list@[j].size.height <= i32::MAX
            },
            result == exists|j: int| 0 <= j < k && covers(#[trigger] list@[j], position),
        decreases list@.len() - k,
    {
        let c = list[k];
        proof {
            assert(c == list@[k as int]);
        }
        let inside_x = position.x >= c.position.x && position.x < c.position.x + c.size.width;
        let inside_y = position.y >= c.position.y && position.y < c.position.y + c.size.height;
        if inside_x && inside_y {
            result = true;
        }
        proof {
            if covers(list@[k as int], position) {
                assert(exists|j: int| 0 <= j < k + 1 && covers(#[trigger] list@[j], position));
            } else {
                assert forall|j: int| 0 <= j < k + 1 && covers(#[trigger] list@[j], position) implies j < k by {}
            }
        }
        k = k + 1;
    }
    result
}

} // verus!
