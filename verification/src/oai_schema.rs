//! The request and response shapes of the OpenAPI surface, kept as bare
//! data so that contracts can speak of their fields. The HTTP layer keeps
//! its own derive-carrying copies and converts at the boundary.

use vstd::prelude::*;

verus! {

/// Default quality-of-service level of a command publish.
pub fn default_qos() -> (r: u8)
    ensures
        r == 1,
{
    1
}

/// Default synchronous-mode flag of a single-device command.
pub fn default_async() -> (r: bool)
    ensures
        r == true,
{
    true
}

/// Default payload codec of a command.
pub fn default_codec() -> (r: PayloadCodec)
    ensures
        r == PayloadCodec::Plain,
{
    PayloadCodec::Plain
}

/// Default upper bound, in seconds, of a synchronous wait.
pub fn default_sync_timeout() -> (r: usize)
    ensures
        r == 10,
{
    10
}

/// How a command payload is encoded on the wire.
#[derive(Debug, Clone, Copy, PartialEq, Eq)]
pub enum PayloadCodec {
    Plain,
    Base64,
}

/// A request to send one command to one device.
#[derive(Debug, Clone, PartialEq)]
pub struct SendCommandToDevice {
    pub command: String,
    pub codec: PayloadCodec,
    pub payload: String,
    /// In synchronous mode the caller waits for the device's reply; in
    /// asynchronous mode it receives the correlation id at once.
    pub is_sync: bool,
    /// Upper bound, in seconds, of the synchronous wait.
    pub sync_timeout: usize,
    /// Seconds the command stays valid, if bounded.
    pub ttl: Option<usize>,
    pub qos: u8,
}

impl SendCommandToDevice {
    /// The invariants the API layer guarantees for a command request.
    pub open spec fn valid(&self) -> bool {
        &&& self.qos <= 2
        &&& 1 <= self.sync_timeout <= 120
        &&& (self.ttl matches Some(n) ==> n >= 1)
    }
}

/// A request to send one command to every device carrying a label.
#[derive(Debug, Clone, PartialEq)]
pub struct SendCommandToDeviceBatch {
    pub command: String,
    pub codec: PayloadCodec,
    pub payload: String,
    /// Seconds the command stays valid, if bounded.
    pub ttl: Option<usize>,
    pub qos: u8,
}

impl SendCommandToDeviceBatch {
    /// The invariants the API layer guarantees for a batch command
    /// request.
    pub open spec fn valid(&self) -> bool {
        &&& self.qos <= 2
        &&& (self.ttl matches Some(n) ==> n >= 1)
    }
}

/// The device's reply, returned to a synchronous caller.
#[derive(Debug, Clone, PartialEq, Eq)]
pub struct SyncCommandResponse {
    pub response: String,
}

/// The correlation id, returned to an asynchronous caller.
#[derive(Debug, Clone, PartialEq, Eq)]
pub struct AsyncCommandResponse {
    pub message_id: String,
}

/// What a dispatch call hands back: the reply itself in synchronous mode,
/// the correlation id in asynchronous mode.
#[derive(Debug, Clone, PartialEq, Eq)]
pub enum CommandResponse {
    Sync(SyncCommandResponse),
    Async(AsyncCommandResponse),
}

impl CommandResponse {
    pub fn new_sync(response: String) -> (r: Self)
        ensures
            r == CommandResponse::Sync(SyncCommandResponse { response }),
    {
        CommandResponse::Sync(SyncCommandResponse { response })
    }

    pub fn new_async(message_id: String) -> (r: Self)
        ensures
            r == CommandResponse::Async(AsyncCommandResponse { message_id }),
    {
        CommandResponse::Async(AsyncCommandResponse { message_id })
    }
}

#[derive(Debug, Clone, PartialEq, Eq)]
pub struct Login {
    pub email: String,
    pub password: String,
}

#[derive(Debug, Clone, PartialEq, Eq)]
pub struct TokenResponse {
    pub token: String,
}

/// A request to provision a device.
#[derive(Debug, Clone, PartialEq, Eq)]
pub struct CreateDevice {
    pub name: String,
    pub schema_id: String,
    pub label_ids: Vec<String>,
    pub mqtt_password: String,
}

/// A partial update of a device record.
#[derive(Debug, Clone, PartialEq, Eq)]
pub struct UpdateDevice {
    pub name: Option<String>,
    pub is_active: Option<bool>,
    pub label_ids: Option<Vec<String>>,
    pub schema_id: Option<String>,
}

#[derive(Debug, Clone, PartialEq, Eq)]
pub struct CreateLabel {
    pub name: String,
}

#[derive(Debug, Clone, PartialEq, Eq)]
pub struct UpdateLabel {
    pub name: String,
}

#[derive(Debug, Clone, PartialEq, Eq)]
pub struct CreateSchema {
    pub name: String,
}

#[derive(Debug, Clone, PartialEq, Eq)]
pub struct UpdateSchema {
    pub name: Option<String>,
}

} // verus!
