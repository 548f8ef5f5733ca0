//! A verified PTY session manager: a registry of pseudo-terminal-backed child
//! processes that a host drives through three short, non-blocking operations —
//! spawn, write, read — while one reader pipeline per session accumulates the
//! process's output and announces it on an event queue.

pub mod errors;
pub mod events;
pub mod outside;
pub mod pipeline;
pub mod registry;

pub use crate::errors::KernelError;
pub use crate::errors::KernelErrorKind;
pub use crate::events::render_event;
pub use crate::pipeline::ChunkOutcome;
pub use crate::pipeline::PipelineAction;
pub use crate::pipeline::pipeline_event_sent;
pub use crate::pipeline::pipeline_step;
pub use crate::registry::KernelState;
pub use crate::registry::PtyHandle;
pub use crate::registry::TransportOutcome;
pub use crate::registry::lito_read_pty;
pub use crate::registry::lito_spawn;
pub use crate::registry::lito_write_pty;
