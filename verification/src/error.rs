//! Session errors: every way one relayer session can end.

use vstd::prelude::*;

verus! {

/// Why a session ended (or could not be established).  Each kind drives a
/// distinct recovery path in the supervisor.
#[derive(Debug)]
pub enum ProxyError {
    /// The auth service rejected the validator: not on the leader schedule.
    AuthenticationPermissionDenied,
    /// The token handshake exceeded its deadline.
    AuthenticationTimeout,
    /// Connecting to the auth service exceeded its deadline.
    AuthenticationConnectionTimeout,
    /// The auth connection failed, or a mid-session check tied to it did.
    AuthenticationConnectionError(String),
    /// Connecting to the relayer backend exceeded its deadline.
    RelayerConnectionTimeout,
    /// The relayer backend connection failed.
    RelayerConnectionError(String),
    /// The named RPC method exceeded its deadline.
    MethodTimeout(String),
    /// The named RPC method returned an error.
    MethodError(String),
    /// The relayer did not describe the named ingress socket.
    MissingTpuSocket(String),
    /// The relayer returned a socket address that does not parse as IPv4.
    BadSocketAddress(String),
    /// A stream-level RPC error.
    GrpcError(String),
    /// The packet stream closed.
    GrpcStreamDisconnected,
    /// No heartbeat arrived within the allowed age.
    HeartbeatExpired,
    /// The heartbeat channel rejected a send.
    HeartbeatChannelError,
    /// A downstream packet channel rejected a send.
    PacketForwardError,
}

impl ProxyError {
    /// The fixed label under which this error kind is reported.
    pub fn metric_label(&self) -> (r: &'static str)
        ensures
            (self is AuthenticationPermissionDenied) ==> r@ == "auth permission denied"@,
            (self is AuthenticationTimeout) ==> r@ == "auth timeout"@,
            (self is AuthenticationConnectionTimeout) ==> r@ == "auth connection timeout"@,
            (self is AuthenticationConnectionError) ==> r@ == "auth connection error"@,
            (self is RelayerConnectionTimeout) ==> r@ == "relayer connection timeout"@,
            (self is RelayerConnectionError) ==> r@ == "relayer connection error"@,
            (self is MethodTimeout) ==> r@ == "method timeout"@,
            (self is MethodError) ==> r@ == "method error"@,
            (self is MissingTpuSocket) ==> r@ == "missing tpu socket"@,
            (self is BadSocketAddress) ==> r@ == "bad socket address"@,
            (self is GrpcError) ==> r@ == "grpc error"@,
            (self is GrpcStreamDisconnected) ==> r@ == "grpc stream disconnected"@,
            (self is HeartbeatExpired) ==> r@ == "heartbeat expired"@,
            (self is HeartbeatChannelError) ==> r@ == "heartbeat channel error"@,
            (self is PacketForwardError) ==> r@ == "packet forward error"@,
    {
        match self {
            ProxyError::AuthenticationPermissionDenied => "auth permission denied",
            ProxyError::AuthenticationTimeout => "auth timeout",
            ProxyError::AuthenticationConnectionTimeout => "auth connection timeout",
            ProxyError::AuthenticationConnectionError(_) => "auth connection error",
            ProxyError::RelayerConnectionTimeout => "relayer connection timeout",
            ProxyError::RelayerConnectionError(_) => "relayer connection error",
            ProxyError::MethodTimeout(_) => "method timeout",
            ProxyError::MethodError(_) => "method error",
            ProxyError::MissingTpuSocket(_) => "missing tpu socket",
            ProxyError::BadSocketAddress(_) => "bad socket address",
            ProxyError::GrpcError(_) => "grpc error",
            ProxyError::GrpcStreamDisconnected => "grpc stream disconnected",
            ProxyError::HeartbeatExpired => "heartbeat expired",
            ProxyError::HeartbeatChannelError => "heartbeat channel error",
            ProxyError::PacketForwardError => "packet forward error",
        }
    }
}

} // verus!
