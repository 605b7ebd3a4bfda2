//! The rule of the ticker, which keeps the running line alive while the
//! child is silent.
//!
//! The ticker waits for the stop signal, for one interval at most. When the
//! wait runs out it sends a tick and waits again; when the signal comes it
//! ends. So it ends within one interval of the signal.

use vstd::prelude::*;
use crate::status::Event;

verus! {

/// How long the ticker waits between two ticks, in milliseconds.
pub const TICK_MILLIS: u64 = 250;

/// What the ticker sends after a wait: a tick if the wait ran out, nothing
/// more if the stop signal came.
pub fn after_wait(stopped: bool) -> (event: Option<Event>)
    ensures
        stopped ==> event is None,
        !stopped ==> event == Some(Event::Tick),
{
    if stopped {
        None
    } else {
        Some(Event::Tick)
    }
}

} // verus!
