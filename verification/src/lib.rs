//! The logic of a small git client: the records of history and diffs, the commit
//! graph, the history list and its menu, text formatting, the open-repository
//! session, the favourites, the side panel and the status bar.
pub mod model;
pub mod graph;
pub mod text;
pub mod details;
pub mod diff;
pub mod commit;
pub mod refs;
pub mod session;
pub mod stars;
pub mod sidebar;
pub mod history;
pub mod status;
