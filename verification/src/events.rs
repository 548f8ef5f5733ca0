//! Notification events: the signal "new output is available for session X"
//! that every reader pipeline pushes onto the event queue, in the symbolic
//! tuple form the host consumes.

use vstd::prelude::*;
use vstd::string::StringExecFns;

verus! {

/// The rendered notification event announcing new output for the session `id`.
pub open spec fn event_text(id: Seq<char>) -> Seq<char> {
    "(pty-output \""@ + id + "\")"@
}

/// Renders the notification event for a session.
pub fn render_event(id: &String) -> (r: String)
    ensures
        r@ == event_text(id@),
{
    let mut event = "(pty-output \"".to_owned();
    event.append(id.as_str());
    event.append("\")");
    event
}

} // verus!
