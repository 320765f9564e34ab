use vstd::prelude::*;

verus! {

/// Return code that a broker sends in its CONNACK packet.
#[derive(Debug, Clone, Copy, PartialEq, Eq, Structural)]
pub enum ConnectReturnCode {
    Accepted,
    RefusedProtocolVersion,
    RefusedIdentifierRejected,
    ServerUnavailable,
    BadUsernamePassword,
    NotAuthorized,
}

/// Errors that the client's own decisions produce.
#[derive(Debug)]
pub enum ClientError {
    /// The mqtt3 crate refused a value (a topic path that is not valid).
    Mqtt3(mqtt3::Error),
    /// The broker answered the CONNECT packet with a code other than `Accepted`.
    MqttConnectionRefused(ConnectReturnCode),
    /// The thread that owns the network connection is gone.
    NoConnectionThread,
    /// The connection was dropped and must be made again.
    Reconnect,
    /// No packet came back within the keep-alive window.
    PingTimeout,
    /// A ping is due while the previous one is still unanswered.
    AwaitPingResp,
    /// The broker sent a packet that the current state does not allow.
    ConnectionAbort,
    /// A payload was larger than the configured limit and was dropped.
    PacketSizeLimitExceeded,
    /// The memory queue and the backlog were both full; the message was dropped.
    BacklogFull,
}

pub type Result<T> = core::result::Result<T, ClientError>;

} // verus!
