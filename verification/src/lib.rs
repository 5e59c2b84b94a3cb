//! A three-column Kanban board: cards move between `Todo`, `Doing` and `Done`,
//! carry a priority, and are created and edited through a small modal state
//! machine.

pub mod model;
pub mod text;
pub mod app;
pub mod error;
pub mod storage;
pub mod input;
pub mod session;
pub mod ui;
pub mod laws;
pub mod behaviour;
