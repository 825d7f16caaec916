//! An emulated MCTP-over-USB device: USB descriptors, replies to the
//! USB-redirection peer, length-prefixed framing of MCTP packets, the
//! receive buffer of the transport handle, and the port's multiplexing
//! decisions.
pub mod adapter;
pub mod descriptors;
pub mod endpoint;
pub mod error;
pub mod framing;
pub mod port;
pub mod transport;
