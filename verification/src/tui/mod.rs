//! The interactive browser: its state and transitions, key handling, and
//! what each panel shows. Terminal drawing and the event loop are the
//! caller's.
pub mod app;
pub mod input;
pub mod ui;
