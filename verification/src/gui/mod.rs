//! The configuration UI's plain logic: the messages between the UI and its
//! worker, on-cap labels, and how daemon replies become UI events.
pub mod api;
pub mod app;
pub mod worker;
