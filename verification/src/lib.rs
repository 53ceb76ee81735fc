//! An internet-radio broadcast engine.
//!
//! A station reads a playlist, plays its tracks in a loop as a paced stream
//! of byte frames, and fans each frame out to every listener through a hub
//! that never waits for a slow one. This crate holds the decisions of such a
//! server, each with a machine-checked contract; it reads no file, opens no
//! socket and starts no task. The caller does those, and tells the library
//! what happened.
//!
//! * [`text`]: character-level operations on paths and lines.
//! * [`playlist`]: where a playlist comes from and which tracks it yields.
//! * [`hub`]: the fan-out of frames to bounded per-subscription queues.
//! * [`now_playing`]: the title a station is playing.
//! * [`playback`]: the playback loop as a state machine.
//! * [`config`]: the configuration record of a station.
//! * [`route`]: one station's session, which moves player, hub and title
//!   together.
//! * [`station`]: a station as the server runs it, and its packager.
//! * [`server`]: the registry of stations and the answers to requests.

pub mod config;
pub mod hub;
pub mod now_playing;
pub mod playback;
pub mod playlist;
pub mod route;
pub mod server;
pub mod station;
pub mod text;
