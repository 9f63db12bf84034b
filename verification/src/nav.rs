//! The navigator: owns the ordered pages and the active index, and
//! routes one event at a time to the active page.
//!
//! The surrounding binary runs the actual render/poll loop; the
//! navigator holds the state the loop depends on and does the routing,
//! so dispatching can never reach a page that is out of bounds or out of
//! shape.

use crate::page::{EventFeedback, InputEvent, Page};
use vstd::prelude::*;

verus! {

/// Abstract state of the navigator: the pages in order and the index of
/// the active one.
pub ghost struct NavState<P> {
    pub pages: Seq<P>,
    pub active: int,
}

pub struct Nav<P: Page> {
    pages: Vec<P>,
    curr_idx: usize,
}

impl<P: Page> View for Nav<P> {
    type V = NavState<P>;

    closed spec fn view(&self) -> NavState<P> {
        NavState { pages: self.pages@, active: self.curr_idx as int }
    }
}

impl<P: Page> Nav<P> {
    /// The navigator invariant: the active index stays inside the page
    /// list, and every owned page keeps its own invariant.
    pub open spec fn inv(&self) -> bool {
        &&& 0 <= self@.active < self@.pages.len()
        &&& forall|i: int| 0 <= i < self@.pages.len() ==> self@.pages[i].inv()
    }

    pub fn new(pages: Vec<P>) -> (r: Self)
        requires
            pages@.len() > 0,
            forall|i: int| 0 <= i < pages@.len() ==> pages@[i].inv(),
        ensures
            r.inv(),
            r@.pages == pages@,
            r@.active == 0,
    {
        Self { pages, curr_idx: 0 }
    }

    pub fn curr_idx(&self) -> (r: usize)
        ensures
            r == self@.active,
    {
        self.curr_idx
    }

    pub fn size(&self) -> (r: usize)
        ensures
            r == self@.pages.len(),
    {
        self.pages.len()
    }

    /// The page the loop renders and dispatches to.
    pub fn active(&self) -> (r: &P)
        requires
            self.inv(),
        ensures
            *r == self@.pages[self@.active],
    {
        &self.pages[self.curr_idx]
    }

    /// Hand one event to the active page and pass its feedback back to
    /// the loop. Only the active page can change, and it changes as its
    /// own transition relation says; the page list keeps its length and
    /// the active index stays put.
    pub fn dispatch(&mut self, evt: InputEvent, code: &mut i32) -> (r: EventFeedback)
        requires
            old(self).inv(),
        ensures
            final(self).inv(),
            final(self)@.active == old(self)@.active,
            final(self)@.pages.len() == old(self)@.pages.len(),
            forall|j: int|
                0 <= j < old(self)@.pages.len() && j != old(self)@.active
                    ==> final(self)@.pages[j] == old(self)@.pages[j],
            P::transition(
                old(self)@.pages[old(self)@.active],
                evt,
                final(self)@.pages[old(self)@.active],
                r,
                *old(code),
                *final(code),
            ),
    {
        let page = &mut self.pages[self.curr_idx];
        page.event(evt, code)
    }
}

} // verus!
