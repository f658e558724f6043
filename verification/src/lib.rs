//! Verified core of a media-player synchronization tool: several player
//! instances keep playback in lockstep over a network. One process is the
//! hub; the others connect to it. This crate holds the logic that can be
//! verified: the binary wire codec, the shared room state with its
//! broadcast and readiness rules, the command dispatcher, the player-event
//! bridge, and the clock-skew arithmetic. Socket and player I/O live
//! outside the crate and drive these functions with plain values.
pub mod client_message_handler;
pub mod mpv_event_handler;
pub mod player;
pub mod proto;
pub mod room;
pub mod time;
