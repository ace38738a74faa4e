//! Kernel of an edge node agent that keeps a set of child programs in step
//! with a remote control plane: the poll-to-event dispatch, the per-program
//! update pipeline, the process supervisor, the stdio stream multiplexer
//! and the durable send queue. Each stage is a function over plain state
//! whose contract says what it does; the host loop performs the I/O.

pub mod data_types;
pub mod utils;
pub mod events;
pub mod sendm;
pub mod program_updater;
pub mod streamer;
pub mod execm;
pub mod srvm;
pub mod certm;
pub mod configm;
pub mod ipcm;
