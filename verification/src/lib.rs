//! Host-side bridge to a path-addressed USB register device: the wire codec,
//! the transport bridge's read and write state, the device registry with its
//! presence detector, and the per-device session.
//!
//! Everything here works on plain values. The caller owns the hardware handle,
//! the worker thread and the channels, performs what the functions of this
//! crate tell it to perform, and hands back what happened.

pub mod codec;
pub mod parser;
pub mod session;
pub mod usb;
pub mod usbfutures;
pub mod web;
