//! Port-forward sessions for Kubernetes services, and the state of the
//! terminal interface that starts, stops and shows them.
//!
//! The library decides and the caller acts. Nothing here spawns, polls or
//! signals a process, reads a key or draws: the caller does that, hands in
//! what it found, and gets back what to do next. `controller` holds the
//! sessions and the navigation state; `session` one session and its
//! lifecycle; `navigation` the model of environments and cursors; `laws`
//! what holds of them all.
pub mod config;
pub mod controller;
pub mod frame;
pub mod input;
pub mod kubectl;
pub mod laws;
pub mod navigation;
pub mod pod;
pub mod session;
pub mod text;
