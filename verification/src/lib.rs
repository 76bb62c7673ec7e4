//! Settings persistence and notification-dispatch core of a desktop chat
//! shell: the JSON settings codec, the save/load decision logic, the
//! notification configuration and dispatch planning, and the UI-facing
//! controller state with its observer events.

pub mod codec;
pub mod controller;
pub mod notification;
pub mod roundtrip;
pub mod settings;
pub mod store;
pub mod text;
