use vstd::prelude::*;

verus! {

/// How the game is drawn: supersampling factor, smoothing between
/// updates, drawing of the grid, and vertical synchronisation.
#[derive(Clone, Copy, Debug)]
pub struct RendererSettings {
    pub ssaa: i32,
    pub smooth: bool,
    pub draw_matrix: bool,
    pub v_sync: bool,
}

impl Default for RendererSettings {
    /// No supersampling, no smoothing, no grid, and vertical
    /// synchronisation.
    fn default() -> (s: RendererSettings)
        ensures
            s.ssaa == 1,
            !s.smooth,
            !s.draw_matrix,
            s.v_sync,
    {
        RendererSettings { ssaa: 1, smooth: false, draw_matrix: false, v_sync: true }
    }
}

/// The integers handed to the drawing shader: its mode and the step.
#[derive(Clone, Copy, Debug)]
pub struct UniformBuffer2 {
    pub renderer_mode: i32,
    pub step: i32,
}

/// What a program run is started with: the number of worker threads.
#[derive(Clone, Copy, Debug)]
pub struct AppInfo {
    pub threads: usize,
}

} // verus!
