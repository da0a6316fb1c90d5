//! Client side of the Minecraft Java Edition wire protocol and the decisions of
//! an address scanner built on it: the VarInt and fixed-width integer codecs,
//! packet framing with optional zlib compression, typed packet fields, the
//! status and login-probe state machines, and the status normalisation.

pub mod bytes;
pub mod checker;
pub mod error;
pub mod field;
pub mod json;
pub mod num;
pub mod packet;
pub mod packet_builder;
pub mod packet_reader;
pub mod packets;
pub mod scan;
pub mod status;
pub mod var_int;
