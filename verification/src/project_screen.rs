//! What the start screen asks for.

use vstd::prelude::*;
use crate::flow::Event;

verus! {

/// The frame rate the start screen offers first.
pub const DEFAULT_FPS: u32 = 20;

/// The frame rates the start screen offers, in frames per second.
pub fn fps_presets() -> (r: [u32; 4])
    ensures
        r@ == seq![8u32, 12u32, 15u32, 20u32],
{
    let r = [8, 12, 15, 20];
    assert(r@ =~= seq![8u32, 12u32, 15u32, 20u32]);
    r
}

/// The recording mode picked on the start screen.
#[derive(Debug, Clone, Copy, PartialEq, Eq, Structural)]
pub enum ProjectAction {
    StartFullScreen,
    StartAreaSelection,
}

impl ProjectAction {
    /// The workflow event this choice is.
    pub fn event(self) -> (r: Event)
        ensures
            r == (match self {
                ProjectAction::StartFullScreen => Event::FullScreenChosen,
                ProjectAction::StartAreaSelection => Event::AreaSelectionChosen,
            }),
    {
        match self {
            ProjectAction::StartFullScreen => Event::FullScreenChosen,
            ProjectAction::StartAreaSelection => Event::AreaSelectionChosen,
        }
    }
}

} // verus!
