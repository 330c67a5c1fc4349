//! Swaps the system pointer image according to which application lies under
//! the pointer. This library holds the configuration model, the registry of
//! cursors and monitored applications, the matcher that picks the application
//! under the pointer, and the activation state machine run on every tick.
pub mod changer;
pub mod config;
pub mod error;
pub mod info;
pub mod laws;

pub use changer::{Action, Application, Cursor, CursorChanger, CursorId};
pub use error::Error;
