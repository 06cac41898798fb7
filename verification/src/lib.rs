//! Verified core of the manatui terminal user interface toolkit: input events,
//! geometry, focus navigation, interactive components and the element tree.

pub mod backends;
pub mod components;
pub mod element;
pub mod event;
pub mod focus;
pub mod fx;
pub mod geometry;
pub mod laws;
pub mod observe;
pub mod runtime;
pub mod ui;
pub mod utils;
