//! The view engine of a terminal panel: the tab and split collection that
//! tracks terminal sessions, the selection and search logic over a snapshot
//! of a session's character grid, and the paint pass that turns that
//! snapshot into drawing operations.

pub mod collection;
pub mod grid;
pub mod pane;
pub mod panel;
pub mod render;
pub mod search;
pub mod selection;
pub mod split;
pub mod width;
