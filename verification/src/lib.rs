//! The websocket layer of a generic API client: connections that are made anew whenever they
//! break.
//!
//! The library holds what has to be decided and remembered for such a connection, and no socket.
//! Whoever holds the sockets tells it what happened and does what it answers.
//!
//! Every function is verified against its contract, with what std, http and tungstenite do taken
//! on trust. What is claimed of them stands in three functions whose bodies Verus does not read
//! ([handshake]'s `into_client_request` and `try_insert`, and [config]'s `longest_duration`) and
//! in the `assume_specification` items of these two modules. Each says in its comment what it claims.

pub mod attempt;
pub mod config;
pub mod connection;
pub mod duplicates;
pub mod effects;
pub mod handler;
pub mod handshake;
pub mod laws;
pub mod message;
pub mod reconnect;
pub mod text;

pub use config::WebSocketConfig;
pub use connection::WebSocketConnection;
pub use handler::WebSocketHandler;
pub use message::WebSocketMessage;
pub use reconnect::ReconnectState;
pub use tungstenite::Error as TungsteniteError;
