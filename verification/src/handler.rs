use crate::config::WebSocketConfig;
use crate::message::WebSocketMessage;
use vstd::prelude::*;

verus! {

/// A `trait` which is used to handle events on a websocket connection.
///
/// The `struct` implementing this `trait` is required to be [Send] and `'static` because
/// it will be sent between threads.
pub trait WebSocketHandler: Send + 'static {
    /// Returns a [WebSocketConfig] that will be applied for all WebSocket connections handled by this handler.
    fn websocket_config(&self) -> (config: WebSocketConfig)
        default_ensures
            config.is_default(),
    {
        WebSocketConfig::default()
    }

    /// Called when a new connection has been started, and returns messages that should be sent to the server.
    ///
    /// This could be called multiple times because the connection can be reconnected.
    fn handle_start(&mut self) -> (messages: Vec<WebSocketMessage>)
        default_ensures
            messages@.len() == 0,
            &*final(self) == &*old(self),
    {
        Vec::new()
    }

    /// Called when a message was received, returns messages to be sent to the server.
    fn handle_message(&mut self, message: WebSocketMessage) -> Vec<WebSocketMessage>;

    /// Called when a websocket connection is closed.
    ///
    /// If the parameter `reconnect` is:
    /// - `true`, it means that the connection is being reconnected for some reason.
    /// - `false`, it means that the connection will not be reconnected, because it was dropped.
    #[allow(unused_variables)]
    fn handle_close(&mut self, reconnect: bool)
        default_ensures
            &*final(self) == &*old(self),
    {
    }
}

} // verus!
