//! Views on sprites and images: frame geometry, view state, file status and
//! the manager that keeps track of every open view.

pub mod geom;
pub mod animation;
pub mod paths;
pub mod storage;
pub mod ids;
pub mod extent;
pub mod view;
pub mod manager;
