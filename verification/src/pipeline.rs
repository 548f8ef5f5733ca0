//! The reader pipeline's state machine. One background task per session pulls
//! chunks from the PTY master; these functions take what the task observed —
//! a chunk, end-of-stream, a read error, the fate of an enqueued event — and
//! perform the verified transition: append to the session's output, emit a
//! notification event, or record that the pipeline has terminated.

use vstd::prelude::*;
use crate::errors::{KernelError, KernelErrorKind, not_found_text};
use crate::events::{event_text, render_event};
use crate::registry::{appended, closure_marked, KernelState};

verus! {

/// What one attempt to read the next chunk from the PTY master yielded.
pub enum ChunkOutcome {
    /// The transport reported end-of-stream.
    Eof,
    /// The transport delivered raw bytes (a read of zero bytes is treated as
    /// end-of-stream).
    Data(Vec<u8>),
    /// The transport failed with the given cause.
    Failed(String),
}

/// What the reader pipeline must do next.
#[derive(Debug)]
pub enum PipelineAction {
    /// Keep running; nothing to deliver.
    Continue,
    /// Push this notification event onto the event queue, then keep running.
    Emit(String),
    /// The pipeline is finished; the session is closed.
    Stop,
}

/// One transition of a session's reader pipeline, from the outcome of a read:
/// bytes are appended (lossily decoded) and announced by an event; zero bytes,
/// end-of-stream and read errors terminate the pipeline, the accumulated
/// output staying readable. The session keeps running exactly when a non-empty
/// chunk arrived.
pub fn pipeline_step(state: &mut KernelState, id: &String, outcome: ChunkOutcome) -> (r: Result<
    PipelineAction,
    KernelError,
>)
    requires
        old(state).wf(),
    ensures
        final(state).wf(),
        !old(state).contains_id(id@) ==> (r matches Err(e) && e.kind
            == KernelErrorKind::SessionNotFound && e.message@ == not_found_text(id@)
            && *final(state) == *old(state)),
        old(state).contains_id(id@) ==> match outcome {
            ChunkOutcome::Eof => r == Ok::<PipelineAction, KernelError>(PipelineAction::Stop)
                && closure_marked(*old(state), *final(state), id@),
            ChunkOutcome::Data(chunk) => if chunk@.len() == 0 {
                r == Ok::<PipelineAction, KernelError>(PipelineAction::Stop) && closure_marked(
                    *old(state),
                    *final(state),
                    id@,
                )
            } else {
                (r matches Ok(a) && a matches PipelineAction::Emit(ev) && ev@ == event_text(id@))
                    && appended(*old(state), *final(state), id@, chunk@)
            },
            ChunkOutcome::Failed(_) => r == Ok::<PipelineAction, KernelError>(PipelineAction::Stop)
                && closure_marked(*old(state), *final(state), id@),
        },
{
    match outcome {
        ChunkOutcome::Eof => {
            match state.close_session(id) {
                Ok(()) => Ok(PipelineAction::Stop),
                Err(e) => Err(e),
            }
        },
        ChunkOutcome::Failed(_cause) => {
            match state.close_session(id) {
                Ok(()) => Ok(PipelineAction::Stop),
                Err(e) => Err(e),
            }
        },
        ChunkOutcome::Data(chunk) => {
            if chunk.len() == 0 {
                match state.close_session(id) {
                    Ok(()) => Ok(PipelineAction::Stop),
                    Err(e) => Err(e),
                }
            } else {
                match state.append_output(id, chunk.as_slice()) {
                    Ok(()) => Ok(PipelineAction::Emit(render_event(id))),
                    Err(e) => Err(e),
                }
            }
        },
    }
}

/// The transition after the pipeline tried to enqueue a notification event:
/// a delivered event keeps the pipeline running and moves nothing; a closed
/// event queue (the consuming side has gone away) terminates the pipeline as
/// a normal cause, the accumulated output staying readable.
pub fn pipeline_event_sent(state: &mut KernelState, id: &String, delivered: bool) -> (r: Result<
    PipelineAction,
    KernelError,
>)
    requires
        old(state).wf(),
    ensures
        final(state).wf(),
        !old(state).contains_id(id@) ==> (r matches Err(e) && e.kind
            == KernelErrorKind::SessionNotFound && e.message@ == not_found_text(id@)
            && *final(state) == *old(state)),
        old(state).contains_id(id@) ==> if delivered {
            r == Ok::<PipelineAction, KernelError>(PipelineAction::Continue) && *final(state)
                == *old(state)
        } else {
            r == Ok::<PipelineAction, KernelError>(PipelineAction::Stop) && closure_marked(
                *old(state),
                *final(state),
                id@,
            )
        },
{
    if delivered {
        match state.find_session(id) {
            Some(_) => Ok(PipelineAction::Continue),
            None => Err(KernelError::session_not_found(id)),
        }
    } else {
        match state.close_session(id) {
            Ok(()) => Ok(PipelineAction::Stop),
            Err(e) => Err(e),
        }
    }
}

} // verus!
