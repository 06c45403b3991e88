//! Session and redirection engine of a software KVM switch.
//!
//! One machine's mouse, keyboard, clipboard and dropped files are captured,
//! streamed to a peer and reproduced there. This crate holds the decisions of
//! that system as verified functions on plain values: the caller performs the
//! input capture, the clipboard access and the network and file I/O, and hands
//! every observation to the library, which answers with what is to be done.
//!
//! Normalised screen coordinates are fixed-point numbers: an unsigned count of
//! millionths, so that `0` is the left or top edge and `1_000_000` the right or
//! bottom edge.

pub mod clipboard;
pub mod codec;
pub mod config;
pub mod connection;
pub mod frame;
pub mod held;
pub mod imaging;
pub mod keymap;
pub mod redirect;
pub mod session;
pub mod sink;
pub mod source;
pub mod transfer;
pub mod wire;
