//! The operator's decision on a changed snapshot.
//!
//! The caller shows the difference and polls the keyboard; what each key
//! means is settled here. Three keys decide, in either case: `o` overwrites,
//! `i` ignores, `q` quits. Anything else, and no key at all, decides
//! nothing: the caller waits a moment and polls again, as long as it takes.

use crate::chars::{chars_of, push_all, text_of};
use crate::differ::{push_rendered, rendered, script_view, DiffLine, DiffLineView};
use vstd::prelude::*;

verus! {

/// What the operator decided.
#[derive(Clone, Copy, Debug, PartialEq, Eq, Structural)]
pub enum Decision {
    /// Keep the new snapshot in place of the old one.
    Overwrite,
    /// Leave the old snapshot in place.
    Ignore,
    /// Stop watching.
    Quit,
}

/// What the keyboard gave when it was polled.
#[derive(Clone, Copy, Debug, PartialEq, Eq, Structural)]
pub enum KeyEvent {
    /// A key that stands for a character.
    Char(char),
    /// Another key.
    Other,
    /// No key was waiting.
    Nothing,
}

/// How long to wait before the keyboard is polled again, in milliseconds.
pub const POLL_WAIT_MILLIS: u64 = 50;

/// The line that announces a changed snapshot.
pub const CHANGE_NOTICE: &'static str = "New results detected!\n";

/// The line that asks for the decision.
pub const PROMPT: &'static str = "(O)verwrite, (I)gnore, (Q)uit?\n";

/// The decision that a character stands for.
pub open spec fn decision_for(key: char) -> Option<Decision> {
    if key == 'o' || key == 'O' {
        Some(Decision::Overwrite)
    } else if key == 'i' || key == 'I' {
        Some(Decision::Ignore)
    } else if key == 'q' || key == 'Q' {
        Some(Decision::Quit)
    } else {
        None
    }
}

/// The decision that an event of the keyboard stands for.
pub open spec fn decision_on(event: KeyEvent) -> Option<Decision> {
    match event {
        KeyEvent::Char(key) => decision_for(key),
        _ => None,
    }
}

/// The decision that a run of events leads to: that of the first event that
/// stands for one, or none yet.
pub open spec fn confirmed(events: Seq<KeyEvent>) -> Option<Decision>
    decreases events.len(),
{
    if events.len() == 0 {
        None
    } else if decision_on(events[0]) is Some {
        decision_on(events[0])
    } else {
        confirmed(events.skip(1))
    }
}

/// What is shown to the operator: the notice, the script, the prompt.
pub open spec fn announcement(script: Seq<DiffLineView>) -> Seq<char> {
    CHANGE_NOTICE@ + rendered(script) + PROMPT@
}

/// The decision that a character key stands for.
pub fn decide(key: char) -> (r: Option<Decision>)
    ensures
        r == decision_for(key),
{
    if key == 'o' || key == 'O' {
        Some(Decision::Overwrite)
    } else if key == 'i' || key == 'I' {
        Some(Decision::Ignore)
    } else if key == 'q' || key == 'Q' {
        Some(Decision::Quit)
    } else {
        None
    }
}

/// The decision that an event of the keyboard stands for.
pub fn decide_on(event: KeyEvent) -> (r: Option<Decision>)
    ensures
        r == decision_on(event),
{
    match event {
        KeyEvent::Char(key) => decide(key),
        _ => None,
    }
}

/// Goes through the events in the order in which the keyboard gave them and
/// returns the first decision, or `None` where no event stands for one.
pub fn confirm(events: &[KeyEvent]) -> (r: Option<Decision>)
    ensures
        r == confirmed(events@),
{
    let mut i: usize = 0;
    assert(events@.skip(0) =~= events@);
    while i < events.len()
        invariant
            i <= events.len(),
            confirmed(events@) == confirmed(events@.skip(i as int)),
        decreases events.len() - i,
    {
        assert(events@.skip(i as int).skip(1) =~= events@.skip(i + 1));
        assert(events@.skip(i as int)[0] == events@[i as int]);
        let decision = decide_on(events[i]);
        if decision.is_some() {
            return decision;
        }
        i += 1;
    }
    None
}

/// Renders what is shown to the operator before the keyboard is polled.
pub fn announce(script: &Vec<DiffLine>) -> (r: String)
    ensures
        r@ == announcement(script_view(script@)),
{
    let mut out: Vec<char> = Vec::new();
    push_all(&mut out, chars_of(CHANGE_NOTICE).as_slice());
    push_rendered(&mut out, script);
    push_all(&mut out, chars_of(PROMPT).as_slice());
    assert(out@ =~= announcement(script_view(script@)));
    text_of(out.as_slice())
}

} // verus!
