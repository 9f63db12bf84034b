//! The page contract: input events, feedback signals, and the trait
//! every screen of the launcher satisfies.

use vstd::prelude::*;

verus! {

/// A key press, reduced to the codes the pages distinguish.
///
/// Keys the launcher ignores (function keys, modifiers, and so on) all
/// arrive as `Other`; printable characters keep their character.
#[derive(Clone, Copy, Debug, PartialEq, Eq, Structural)]
pub enum KeyCode {
    Char(char),
    Enter,
    Up,
    Down,
    Other,
}

/// One input event handed to the active page.
///
/// Every terminal event a page can receive is covered: pages must accept
/// all of them without crashing, even those they ignore.
#[derive(Clone, Copy, Debug, PartialEq, Eq, Structural)]
pub enum InputEvent {
    Key(KeyCode),
    FocusGained,
    FocusLost,
    Mouse,
    Paste,
    Resize(u16, u16),
}

/// A page's answer to an event: keep running, or leave the run loop.
#[derive(Clone, Copy, Debug, PartialEq, Eq, Structural)]
pub enum EventFeedback {
    Continue,
    Exit,
}

/// The capability every screen must provide: consume one event and
/// report whether the application should keep running, and name itself.
///
/// `inv` is the page's internal well-formedness; `event` both relies on
/// it and restores it, so a navigator can dispatch forever. `transition`
/// is the page's own statement of what one event does: it relates the
/// state, the feedback and the exit-code cell before and after, and
/// `event` promises to obey it, so whoever routes events to a concrete
/// page kind knows exactly what came of them.
pub trait Page: Sized {
    spec fn inv(&self) -> bool;

    spec fn transition(
        pre: Self,
        evt: InputEvent,
        post: Self,
        fb: EventFeedback,
        code_pre: i32,
        code_post: i32,
    ) -> bool;

    /// Consume one input event. `code` is the shared exit-code cell the
    /// page may set when it asks the run loop to stop.
    fn event(&mut self, evt: InputEvent, code: &mut i32) -> (r: EventFeedback)
        requires
            old(self).inv(),
        ensures
            final(self).inv(),
            Self::transition(*old(self), evt, *final(self), r, *old(code), *final(code)),
    ;

    /// Static display label of the page.
    fn header(&self) -> String;
}

} // verus!
