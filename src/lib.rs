//! The connection manager of a message-broker viewer: the state machine that
//! owns the broker link, the decoding of delivered messages, the projection of
//! header and argument tables onto JSON, and the connection parameters.

pub mod field;
pub mod gui;
pub mod manager;
pub mod number;
pub mod params;
pub mod protocol;
pub mod uri;
