//! Host-side logic for driving a single-threaded scripting engine from many
//! threads: the engine-thread job queue, the tagged value type that crosses
//! the thread boundary, the registry of retained engine objects, and the
//! bookkeeping that connects host-resolved promises to engine promises.
//!
//! Everything here is plain data and decisions. The engine itself, the worker
//! thread and the locks that guard shared state are owned by the caller.

pub mod error;
pub mod executor;
pub mod expression;
pub mod native;
pub mod promises;
pub mod registry;
pub mod table;
pub mod value;
