//! Links a phone and a Linux computer over whatever connects them: pairs them by
//! comparing digits, keeps sessions up over the best route there is, and carries
//! locking, waking, the clipboard, media, commands, files and a touchpad.
//!
//! [`engine`] is the state machine at the centre: events in, actions out, and no
//! I/O. Its model is [`engine::model::State`]; what `handle` makes of an event is
//! `State::handled`, and what holds of every step is proved in [`engine::laws`],
//! [`engine::promises`], [`engine::sessions`] and [`engine::timers`], and of every
//! step of a core with the features of this library in [`engine::asking`] and
//! [`engine::answering`]. [`noise`] has the handshakes and sessions, [`plugins`] the
//! protocol half of each feature, [`linux`] what a desktop decides, and [`ffi`] the
//! same core as a host in another language sees it.
use vstd::prelude::*;

pub mod body;
pub mod cbor;
pub mod config;
pub mod engine;
pub mod ffi;
pub mod ids;
pub mod layout;
pub mod link;
pub mod linux;
pub mod noise;
pub mod peer;
pub mod plugin;
pub mod plugins;
pub mod table;
pub mod text;
pub mod vocab;
pub mod wire;
pub mod words;

verus! {

} // verus!
