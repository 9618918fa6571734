//! A discovery responder for a DIAL second-screen device, layered on
//! UPnP/SSDP.
//!
//! The crate builds the NOTIFY advertisements a device announces itself
//! with, decides which inbound SSDP search datagrams deserve a unicast
//! reply, and routes stream requests for the device-descriptor document.
//! All wire text is produced and parsed by verified functions; the
//! surrounding process only moves bytes between sockets and this library.

pub mod broadcast;
pub mod laws;
pub mod listener;
pub mod message;
pub mod parse;
pub mod server;
pub mod text;
