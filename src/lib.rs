//! Status reconciliation and process orchestration for a fleet of
//! container-compose projects: the per-project state cells and every
//! transition applied to them, the parsers of the engine's command output,
//! and the decisions of the start, stop, follow and daemon sequences. The
//! commands themselves are run by the caller, which hands back their output.
pub mod status;
pub mod text;
pub mod progress;
pub mod decimal;
pub mod probe;
pub mod events;
pub mod service;
pub mod fleet;
pub mod daemon;
pub mod compose;
pub mod config;
pub mod view;
