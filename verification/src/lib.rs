//! A client-side implementation of the Minecraft Server List Ping and login
//! handshake wire protocol: a variable-width integer codec, packet framing,
//! handshake/status/login packet builders, compressed-frame decoding, MOTD
//! (chat component) flattening, and the bookkeeping of a bounded concurrent
//! scan.
//!
//! All socket I/O lives outside this crate; the functions here build and
//! decode the bytes that travel over such sockets and decide what a probe
//! does next.
//!
//! - [`varint`]: the 7-bits-per-byte integer codec everything else rests on.
//! - [`packet`]: framing and the handshake, status-request and
//!   version-adaptive login-start packets.
//! - [`status`]: pulling the JSON document out of a status response.
//! - [`frame`]: the compressed frame format active after Set Compression.
//! - [`login`]: the login read loop's per-frame decision step.
//! - [`motd`]: flattening the description's chat-component tree.
//! - [`target`]: target lines in, confirmed-endpoint lines out.
//! - [`report`]: the one result record every probed target ends in.
//! - [`scan`]: the bounded-concurrency run bookkeeping.
//! - [`errors`]: the error kinds a probe can end in.

pub mod errors;
pub mod frame;
pub mod login;
pub mod motd;
pub mod packet;
pub mod report;
pub mod scan;
pub mod status;
pub mod target;
pub mod varint;
