//! An in-memory task tracker: a store of tasks with sequential identifiers,
//! and the decisions of the menu that drives it.

pub mod error;
pub mod history;
pub mod paint;
pub mod session;
pub mod store;
pub mod table;
pub mod task;
pub mod text;

pub use error::TaskError;
pub use session::{Choice, Mode, Reply, Session};
pub use store::TaskStore;
pub use task::Task;
