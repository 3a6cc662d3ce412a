//! The reading-position and navigation engine of a paginated document reader.
//!
//! The engine follows which block of the current page is the first one in
//! the viewport, remembers a reading position for every page, keeps named
//! marks, reads the keyboard's small modal grammar, and turns pages within
//! the bounds of the document. It touches neither the screen nor the
//! browser's storage: events come in as plain values, and what is to be
//! shown or stored goes out as plain values.

pub mod book;
pub mod config;
pub mod content;
pub mod encoding;
pub mod input;
pub mod marks;
pub mod nav_state;
pub mod number;
pub mod position;
pub mod record;
mod text;
pub mod tracker;
pub mod visibility;

pub use book::Book;
pub use config::Config;
pub use input::{Action, Handler};
pub use marks::Marks;
pub use nav_state::NavState;
pub use tracker::Tracker;
