//! The command-list page: one stored command record, the page state, and
//! its event state machine (cursor movement, deletion, note popup).

use crate::page::{EventFeedback, InputEvent, KeyCode, Page};
use vstd::prelude::*;

verus! {

/// Abstract value of one stored command record.
pub ghost struct QuickItemView {
    pub short: Seq<char>,
    pub full: Seq<char>,
    pub note: Seq<char>,
}

/// One stored command record: a short alias, the full shell invocation,
/// and a free-form note. Fields are immutable once the record is made.
#[derive(Debug, Clone)]
pub struct QuickItem {
    short: String,
    full: String,
    note: String,
}

impl View for QuickItem {
    type V = QuickItemView;

    closed spec fn view(&self) -> QuickItemView {
        QuickItemView { short: self.short@, full: self.full@, note: self.note@ }
    }
}

impl QuickItem {
    pub fn new(s: String, f: String, n: String) -> (r: Self)
        ensures
            r@.short == s@,
            r@.full == f@,
            r@.note == n@,
    {
        QuickItem { short: s, full: f, note: n }
    }

    pub fn short(&self) -> (r: &String)
        ensures
            r@ == self@.short,
    {
        &self.short
    }

    pub fn full(&self) -> (r: &String)
        ensures
            r@ == self@.full,
    {
        &self.full
    }

    pub fn note(&self) -> (r: &String)
        ensures
            r@ == self@.note,
    {
        &self.note
    }
}

/// Abstract state of the command-list page: the displayed records in
/// order, the selection cursor, and whether the note popup is shown.
#[verifier::ext_equal]
pub ghost struct QuickState {
    pub name: Seq<char>,
    pub items: Seq<QuickItem>,
    pub cursor: int,
    pub popup: bool,
}

impl QuickState {
    /// The page invariant: the cursor stays inside the list, and rests
    /// at zero while the list is empty.
    pub open spec fn wf(self) -> bool {
        if self.items.len() == 0 {
            self.cursor == 0
        } else {
            0 <= self.cursor < self.items.len()
        }
    }

    /// Deletion: remove the record under the cursor; when the cursor
    /// then equals the new length it is moved back one step, clamped to
    /// zero. Deleting from an empty list changes nothing.
    pub open spec fn delete_step(self) -> QuickState {
        if self.items.len() == 0 {
            self
        } else {
            let items2 = self.items.remove(self.cursor);
            let cursor2 = if self.cursor == items2.len() && self.cursor > 0 {
                self.cursor - 1
            } else {
                self.cursor
            };
            QuickState { items: items2, cursor: cursor2, ..self }
        }
    }

    /// The event state machine of the page, as a transition function:
    /// the next state, the feedback to the navigator, and whether the
    /// shared exit-code cell is set to zero.
    pub open spec fn step(self, evt: InputEvent) -> (QuickState, EventFeedback, bool) {
        match evt {
            InputEvent::Key(k) => match k {
                KeyCode::Char(c) => if c == 'q' {
                    (self, EventFeedback::Exit, true)
                } else if c == ' ' {
                    (QuickState { popup: !self.popup, ..self }, EventFeedback::Continue, false)
                } else if c == 'd' {
                    (self.delete_step(), EventFeedback::Continue, false)
                } else {
                    (self, EventFeedback::Continue, false)
                },
                KeyCode::Enter => (self, EventFeedback::Exit, true),
                KeyCode::Up => (
                    QuickState {
                        cursor: if self.cursor > 0 {
                            self.cursor - 1
                        } else {
                            self.cursor
                        },
                        ..self
                    },
                    EventFeedback::Continue,
                    false,
                ),
                KeyCode::Down => (
                    QuickState {
                        cursor: if self.cursor + 1 < self.items.len() {
                            self.cursor + 1
                        } else {
                            self.cursor
                        },
                        ..self
                    },
                    EventFeedback::Continue,
                    false,
                ),
                KeyCode::Other => (self, EventFeedback::Continue, false),
            },
            _ => (self, EventFeedback::Continue, false),
        }
    }
}

/// The command-list page.
#[derive(Debug, Clone)]
pub struct QuickPage {
    name: String,
    items: Vec<QuickItem>,
    curr_idx: usize,
    popup: bool,
}

impl View for QuickPage {
    type V = QuickState;

    closed spec fn view(&self) -> QuickState {
        QuickState {
            name: self.name@,
            items: self.items@,
            cursor: self.curr_idx as int,
            popup: self.popup,
        }
    }
}

impl QuickPage {
    pub open spec fn wf(&self) -> bool {
        self@.wf()
    }

    pub fn new(name: String, items: Vec<QuickItem>, curr_idx: usize, popup: bool) -> (r: Self)
        requires
            items@.len() == 0 ==> curr_idx == 0,
            items@.len() > 0 ==> curr_idx < items@.len(),
        ensures
            r@ == (QuickState { name: name@, items: items@, cursor: curr_idx as int, popup }),
            r.wf(),
    {
        Self { name, items, curr_idx, popup }
    }

    pub fn size(&self) -> (r: usize)
        ensures
            r == self@.items.len(),
    {
        self.items.len()
    }

    pub fn items(&self) -> (r: &Vec<QuickItem>)
        ensures
            r@ == self@.items,
    {
        &self.items
    }

    pub fn item_idx(&self) -> (r: usize)
        ensures
            r == self@.cursor,
    {
        self.curr_idx
    }

    /// The record under the cursor, or nothing while the list is empty:
    /// the guard every list-dependent view goes through.
    pub fn current(&self) -> (r: Option<&QuickItem>)
        requires
            self.wf(),
        ensures
            match r {
                Some(q) => self@.items.len() > 0 && *q == self@.items[self@.cursor],
                None => self@.items.len() == 0,
            },
    {
        if self.items.len() == 0 {
            None
        } else {
            Some(&self.items[self.curr_idx])
        }
    }

    pub fn delete(&mut self)
        requires
            old(self).wf(),
        ensures
            final(self)@ == old(self)@.delete_step(),
            final(self).wf(),
    {
        if self.items.len() == 0 {
            return ;
        }
        let idx = self.item_idx();
        self.items.remove(idx);
        if self.curr_idx == self.items.len() && self.curr_idx > 0 {
            self.curr_idx = self.curr_idx - 1;
        }
    }

    pub fn flip_popup(&mut self)
        ensures
            final(self)@ == (QuickState { popup: !old(self)@.popup, ..old(self)@ }),
    {
        self.popup = !self.popup;
    }

    pub fn is_popup(&self) -> (r: bool)
        ensures
            r == self@.popup,
    {
        self.popup
    }
}

impl Page for QuickPage {
    open spec fn inv(&self) -> bool {
        self.wf()
    }

    /// One event does to the page exactly what `QuickState::step` says,
    /// and zeroes the exit-code cell exactly when `step` says so.
    open spec fn transition(
        pre: Self,
        evt: InputEvent,
        post: Self,
        fb: EventFeedback,
        code_pre: i32,
        code_post: i32,
    ) -> bool {
        let (s2, fb2, setz) = pre@.step(evt);
        &&& post@ == s2
        &&& fb == fb2
        &&& code_post == (if setz {
            0i32
        } else {
            code_pre
        })
    }

    fn event(&mut self, evt: InputEvent, code: &mut i32) -> (r: EventFeedback) {
        match evt {
            InputEvent::Key(k) => match k {
                KeyCode::Char(c) => {
                    if c == 'q' {
                        *code = 0;
                        EventFeedback::Exit
                    } else if c == ' ' {
                        self.flip_popup();
                        EventFeedback::Continue
                    } else if c == 'd' {
                        self.delete();
                        EventFeedback::Continue
                    } else {
                        EventFeedback::Continue
                    }
                },
                KeyCode::Enter => {
                    *code = 0;
                    EventFeedback::Exit
                },
                KeyCode::Up => {
                    if self.curr_idx != 0 {
                        self.curr_idx = self.curr_idx - 1;
                    }
                    EventFeedback::Continue
                },
                KeyCode::Down => {
                    if self.items.len() > 0 && self.curr_idx < self.items.len() - 1 {
                        self.curr_idx = self.curr_idx + 1;
                    }
                    EventFeedback::Continue
                },
                KeyCode::Other => EventFeedback::Continue,
            },
            _ => EventFeedback::Continue,
        }
    }

    fn header(&self) -> (r: String)
        ensures
            r@ == "Quick"@,
    {
        String::from_str("Quick")
    }
}

/// The rectangle of the note popup: centered in the region
/// `(x, y, w, h)`, taking the given percentages of its width and
/// height. Returned as `(x, y, w, h)` of the overlay.
pub fn centered_region(percent_x: u16, percent_y: u16, x: u16, y: u16, w: u16, h: u16) -> (r: (
    u16,
    u16,
    u16,
    u16,
))
    requires
        percent_x <= 100,
        percent_y <= 100,
        x + w <= u16::MAX,
        y + h <= u16::MAX,
    ensures
        ({
            let (rx, ry, rw, rh) = r;
            &&& rw == w * percent_x / 100
            &&& rh == h * percent_y / 100
            &&& rx == x + (w - rw) / 2
            &&& ry == y + (h - rh) / 2
        }),
{
    proof {
        assert((w * percent_x) / 100 <= w && (h * percent_y) / 100 <= h) by (nonlinear_arith)
            requires
                percent_x <= 100,
                percent_y <= 100,
        ;
    }
    let rw = ((w as u32) * (percent_x as u32) / 100) as u16;
    let rh = ((h as u32) * (percent_y as u32) / 100) as u16;
    let rx = x + (w - rw) / 2;
    let ry = y + (h - rh) / 2;
    (rx, ry, rw, rh)
}

/// Whether an event is one of the two cursor-movement keys.
pub open spec fn is_nav_key(evt: InputEvent) -> bool {
    evt == InputEvent::Key(KeyCode::Up) || evt == InputEvent::Key(KeyCode::Down)
}

/// The state after a whole sequence of events, first event first.
pub open spec fn steps(s: QuickState, evts: Seq<InputEvent>) -> QuickState
    decreases evts.len(),
{
    if evts.len() == 0 {
        s
    } else {
        steps(s.step(evts[0]).0, evts.drop_first())
    }
}

/// Law: every event keeps the page invariant.
pub proof fn lemma_step_preserves_wf(s: QuickState, evt: InputEvent)
    requires
        s.wf(),
    ensures
        s.step(evt).0.wf(),
{
}

/// Law: the page invariant holds in every state any sequence of events
/// can reach.
pub proof fn lemma_steps_preserve_wf(s: QuickState, evts: Seq<InputEvent>)
    requires
        s.wf(),
    ensures
        steps(s, evts).wf(),
    decreases evts.len(),
{
    if evts.len() > 0 {
        lemma_step_preserves_wf(s, evts[0]);
        lemma_steps_preserve_wf(s.step(evts[0]).0, evts.drop_first());
    }
}

/// Law: a sequence of Up and Down events never touches the items, and on
/// a non-empty list the cursor always stays within `[0, items.len() - 1]`.
pub proof fn lemma_navigation_stays_in_bounds(s: QuickState, evts: Seq<InputEvent>)
    requires
        s.wf(),
        s.items.len() > 0,
        forall|i: int| 0 <= i < evts.len() ==> is_nav_key(evts[i]),
    ensures
        steps(s, evts).items == s.items,
        0 <= steps(s, evts).cursor < s.items.len(),
    decreases evts.len(),
{
    if evts.len() > 0 {
        let s1 = s.step(evts[0]).0;
        lemma_step_preserves_wf(s, evts[0]);
        lemma_navigation_stays_in_bounds(s1, evts.drop_first());
    }
}

/// Law: deleting with a non-empty list shrinks it by exactly one and
/// leaves the cursor in bounds, at zero when the list empties; deleting
/// from an empty list changes nothing.
pub proof fn lemma_delete_shrinks_by_one(s: QuickState)
    requires
        s.wf(),
    ensures
        s.items.len() > 0 ==> s.delete_step().items.len() == s.items.len() - 1,
        s.items.len() > 0 && s.delete_step().items.len() == 0 ==> s.delete_step().cursor == 0,
        s.delete_step().wf(),
        s.items.len() == 0 ==> s.delete_step() == s,
{
}

/// Law: toggling the popup twice restores the whole state, and a single
/// toggle never alters the items or the cursor.
pub proof fn lemma_popup_toggle_involution(s: QuickState)
    ensures
        ({
            let space = InputEvent::Key(KeyCode::Char(' '));
            let s1 = s.step(space).0;
            &&& s.step(space).0.step(space).0 == s
            &&& s1.items == s.items
            &&& s1.cursor == s.cursor
        }),
{
}

/// Law: exactly the `q` key and Enter yield `Exit`; they, and only they,
/// set the exit-code cell (to zero), and they leave the state unchanged.
pub proof fn lemma_exit_only_on_quit(s: QuickState, evt: InputEvent)
    ensures
        (s.step(evt).1 == EventFeedback::Exit) <==> (evt == InputEvent::Key(KeyCode::Char('q'))
            || evt == InputEvent::Key(KeyCode::Enter)),
        s.step(evt).2 <==> s.step(evt).1 == EventFeedback::Exit,
        s.step(evt).1 == EventFeedback::Exit ==> s.step(evt).0 == s,
{
}

} // verus!
