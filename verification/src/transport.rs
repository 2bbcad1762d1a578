//! The transport abstraction: how the server reaches its clients.
//!
//! The crate never touches sockets itself; a transport implementation
//! hands complete frames in and carries framed replies out.

use vstd::prelude::*;

verus! {

/// Identity of one connected client, assigned at connection,
/// monotonically from 1.
pub type ClientId = u64;

/// A failure of the transport layer.
#[derive(Debug)]
pub enum TransportError {
    /// Establishing or keeping a connection failed.
    ConnectionError(String),
    /// Sending to a client failed.
    SendError(String),
    /// Receiving from a client failed.
    ReceiveError(String),
    /// The transport could not start.
    InitError(String),
}

/// The text of a transport error, naming the kind.
pub open spec fn transport_error_message(e: TransportError) -> Seq<char> {
    match e {
        TransportError::ConnectionError(m) => "Connection error: "@ + m@,
        TransportError::SendError(m) => "Send error: "@ + m@,
        TransportError::ReceiveError(m) => "Receive error: "@ + m@,
        TransportError::InitError(m) => "Initialization error: "@ + m@,
    }
}

impl TransportError {
    /// Render the error as text.
    pub fn message(&self) -> (r: String)
        ensures
            r@ == transport_error_message(*self),
    {
        let mut out = String::new();
        match self {
            TransportError::ConnectionError(m) => {
                out.append("Connection error: ");
                out.append(m.as_str());
            },
            TransportError::SendError(m) => {
                out.append("Send error: ");
                out.append(m.as_str());
            },
            TransportError::ReceiveError(m) => {
                out.append("Receive error: ");
                out.append(m.as_str());
            },
            TransportError::InitError(m) => {
                out.append("Initialization error: ");
                out.append(m.as_str());
            },
        }
        out
    }
}

/// A pluggable communication mechanism: the UNIX-socket transport in
/// production, an in-memory one under test.
pub trait Transport {
    /// Start accepting clients.
    fn start(&mut self) -> Result<(), TransportError>;

    /// Stop and release every connection.
    fn stop(&mut self) -> Result<(), TransportError>;

    /// Send one framed payload to a client.
    fn send(&self, client_id: ClientId, data: &[u8]) -> Result<(), TransportError>;

    /// Best-effort broadcast: a failure on one client does not stop
    /// the others.
    fn send_to_clients(&self, client_ids: &[ClientId], data: &[u8]) -> Result<(), TransportError>;

    /// A snapshot of the connected clients.
    fn get_connected_clients(&self) -> Vec<ClientId>;
}

/// What the transport calls when a complete message arrives or a client
/// goes away.
pub trait MessageHandler {
    /// Handle one complete frame from a client.
    fn handle_message(&mut self, client_id: ClientId, data: &[u8]);

    /// Handle a client's disconnection.
    fn handle_disconnect(&mut self, client_id: ClientId);
}

/// Where the UNIX-socket transport binds.
pub struct UnixSocketConfig {
    /// Filesystem path of the socket; an existing file is unlinked first.
    pub socket_path: String,
}

} // verus!
