//! Session orchestration for a markup language server: the in-memory file
//! overlay, the compile sessions and their entry files, the diagnostics
//! aggregator, and the protocol lifecycle middleware.
pub mod diagnostics;
pub mod error;
pub mod lifecycle;
pub mod overlay;
pub mod path;
pub mod session;
pub mod text;
pub mod util;
pub mod workspace;
