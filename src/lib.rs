//! Capture of MIDI events on a real-time audio callback and their relay,
//! as fixed-size owned capsules, to a consumer on another thread.

pub mod capsule;
pub mod text;
pub mod relay;
pub mod session;
pub mod lifecycle;
pub mod choice;
