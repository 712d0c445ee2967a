//! The control plane: the request handshake and the decisions of a tunnel session.

pub mod error;
pub mod handshake;
pub mod percent;
pub mod request;
pub mod response;
pub mod setup;
pub mod tunnel;
pub mod tunnel_laws;

pub use crate::session::error::SessionError;
pub use crate::session::handshake::{
    check_connect_udp, inject_protocol_header, parse_connect_udp_target, parse_masque_udp_path,
};
pub use crate::session::percent::percent_decode;
pub use crate::session::setup::{Refusal, Setup, SetupAction, SetupEvent};
pub use crate::session::tunnel::{Action, ConnectUdpSession, Event, QuicMessage};
