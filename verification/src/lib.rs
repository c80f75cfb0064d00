//! Verified core of the update bundle generator: exclusion lists, file
//! selection, bundle directory naming, install script rewriting and
//! the routing of UI events.

pub mod text;
pub mod exclusions;
pub mod selection;
pub mod layout;
pub mod script;
pub mod events;
pub mod laws;
