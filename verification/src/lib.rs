//! A verified playback core for driving a 21-key on-screen instrument from a
//! standard multi-track note timeline: a tempo-corrected loader, a family of
//! note-to-key mapping modes, a reference-counted key tracker, a pass engine
//! that decides which key goes down or up at which millisecond, and a pure
//! transport state machine.  All timing and key decisions are computed here;
//! clocks, threads and the key-simulation capability live with the caller.

pub mod detect;
pub mod engine;
pub mod focus;
pub mod keys;
pub mod loader;
pub mod mapper;
pub mod score;
pub mod sorting;
pub mod tempo;
pub mod tracker;
pub mod transport;
