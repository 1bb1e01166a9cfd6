//! What a Linux desktop decides, apart from the buses and devices it does it on.
pub mod ble;
pub mod clipboard;
pub mod command;
pub mod compositor;
pub mod effector;
pub mod media;
pub mod mixer;
pub mod notify;
pub mod session;
pub mod touchpad;
pub mod usb;
pub mod user;
pub mod wol;
