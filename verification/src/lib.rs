//! Clipboard history engine: classification of clipboard text, the ordered
//! entry log, self-write suppression and the popup's visibility controller.

pub mod classify;
pub mod display;
pub mod entry;
pub mod geometry;
pub mod monitor;
pub mod schema;
pub mod settings;
pub mod store;
pub mod text;
pub mod visibility;
