//! The plugins every device registers, each the protocol half of one feature.
pub mod clipboard;
pub mod command;
pub mod media;
pub mod ping;
pub mod roster;
pub mod session;
pub mod share;
pub mod stock;
pub mod touchpad;
pub mod wol;
