//! The terminal dashboard: what it shows and how keys change it.

pub mod lines;
pub mod view_state;
pub mod rows;
pub mod keys;
pub mod model;
pub mod key_model;
pub mod requests;
pub mod app;
pub mod preview;
pub mod key_laws;
pub mod list_laws;
pub mod request_laws;
pub mod preview_laws;
pub mod laws;
