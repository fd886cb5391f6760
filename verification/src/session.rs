//! The session controller's part of each round of the event loop: a key
//! press goes in, the next state and what to paint come out.

use vstd::prelude::*;
use crate::keys::{dispatch, event_for, is_eligible, Key};
use crate::model::{Outcome, Picker};
use crate::render::{draw, frame, strokes, DrawOp};

verus! {

/// What the loop does after a key press: paint `frame`, then read the next
/// key if `go_on` holds, or leave.
pub struct Turn {
    pub frame: Vec<DrawOp>,
    pub go_on: bool,
}

/// The frame of the state before the first key press.
pub fn open_session(p: &Picker) -> (t: Turn)
    requires
        p@.wf(),
    ensures
        strokes(t.frame@) == frame(p@),
        t.go_on == (p@.outcome == Outcome::Continue),
{
    Turn { frame: draw(p), go_on: !p.is_finished() }
}

/// One round: the key press is dispatched, its event applied, and the new
/// state painted. The loop goes on while the outcome is `Continue`.
pub fn turn(p: &mut Picker, key: Key, modified: bool) -> (t: Turn)
    requires
        old(p)@.wf(),
    ensures
        final(p)@.wf(),
        old(p)@.steps_to(event_for(key, modified, is_eligible(key)), final(p)@),
        strokes(t.frame@) == frame(final(p)@),
        t.go_on == (final(p)@.outcome == Outcome::Continue),
{
    p.step(dispatch(key, modified));
    Turn { frame: draw(p), go_on: !p.is_finished() }
}

} // verus!
