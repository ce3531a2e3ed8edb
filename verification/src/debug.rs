use vstd::prelude::*;

verus! {

/// Switches of the debug overlay.
pub struct DebugSettings {
    pub draw_matrix_simple: bool,
    pub draw_matrix_physics: bool,
    pub draw_color_pression: bool,
}

impl DebugSettings {
    /// Every overlay starts switched off.
    pub fn new() -> (settings: DebugSettings)
        ensures
            !settings.draw_matrix_simple,
            !settings.draw_matrix_physics,
            !settings.draw_color_pression,
    {
        DebugSettings { draw_matrix_simple: false, draw_matrix_physics: false, draw_color_pression: false }
    }
}

} // verus!
