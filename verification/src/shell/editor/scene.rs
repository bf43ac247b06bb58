//! Scenes: full-screen views that take over the editor's input.

use crate::shell::editor::event::Event;
use vstd::prelude::*;

verus! {

/// A full-screen view that receives the user's input while it is open.
pub trait Scene {
    /// Which screen buffer the scene is drawn on.
    fn render_mode(&self) -> RenderMode;

    /// Handle one input event.
    fn on_input(&mut self, ctx: &mut SceneContext, event: Event);

    /// The text of the scene.
    fn render(&self) -> String;
}

/// What a scene asks of the editor while it handles an event.
pub struct SceneContext {
    /// Whether the scene asked to be closed.
    pub close: bool,
}

impl Default for SceneContext {
    fn default() -> (ctx: SceneContext)
        ensures
            !ctx.close,
    {
        SceneContext { close: false }
    }
}

impl SceneContext {
    /// Ask for the scene to be closed.
    pub fn close(&mut self)
        ensures
            final(self).close,
    {
        self.close = true;
    }
}

/// The screen buffer that a scene is drawn on.
#[derive(Clone, Copy, Debug, Eq, PartialEq, Structural)]
pub enum RenderMode {
    Normal,
    Alt,
}

} // verus!
