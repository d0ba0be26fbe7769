//! A windowing abstraction: a unified event model, the translation of each
//! backend's native events into it, and the typed marshalling of X window
//! properties. Native connections and drawing surfaces stay with the caller;
//! the library decides what to send and how to read what comes back.

pub mod app;
pub mod event;
pub mod window;
