//! The core of a MASQUE proxy: the CONNECT-UDP codec, the request handshake and
//! the decisions of a tunnel session.

pub mod buffers;
pub mod protocol;
pub mod session;
pub mod text;
