//! A scene for browsing the command history.

use crate::shell::editor::event::Event;
use crate::shell::editor::scene::{RenderMode, Scene, SceneContext};
use vstd::prelude::*;

verus! {

/// Full-screen browser of the command history; a line feed closes it.
#[derive(Default)]
pub struct HistoryBrowser {}

impl Scene for HistoryBrowser {
    fn render_mode(&self) -> (m: RenderMode)
        ensures
            m == RenderMode::Alt,
    {
        RenderMode::Alt
    }

    fn on_input(&mut self, ctx: &mut SceneContext, event: Event)
        ensures
            final(ctx).close == (old(ctx).close || event == Event::Char('\n')),
    {
        match event {
            Event::Char('\n') => {
                ctx.close();
            },
            _ => {},
        }
    }

    fn render(&self) -> (text: String)
        ensures
            text@ == "History..."@,
    {
        String::from_str("History...")
    }
}

} // verus!
