//! The command dispatcher and the correlation/wait engine. The dispatcher
//! builds the envelope and the publish request for a single publish
//! attempt; the engine resolves a synchronous command by popping the
//! response store at the command's correlation id, bounded by a
//! caller-supplied timeout.

use vstd::prelude::*;

use crate::cache::store_has_value;
use crate::cache::store_popped;
use crate::cache::Cache;
use crate::config::EmqxConfig;
use crate::errors::NeoiotError;
use crate::oai_schema::AsyncCommandResponse;
use crate::oai_schema::CommandResponse;
use crate::oai_schema::SendCommandToDevice;
use crate::oai_schema::SendCommandToDeviceBatch;
use crate::oai_schema::SyncCommandResponse;
use crate::text::no_slash;
use crate::topics::is_correlation_id;
use crate::topics::lemma_correlation_id_no_slash;
use crate::topics::topic_encoding;
use crate::topics::Message;
use crate::topics::ServerToDevice;
use crate::topics::ServerToDeviceBatch;
use crate::topics::Topics;
use crate::topics::TopicsView;

verus! {

/// The lifecycle of one command's wait: a pending wait reaches exactly
/// one terminal state, resolved by a response or timed out.
#[derive(Debug, Clone, Copy, PartialEq, Eq)]
pub enum WaitState {
    Pending,
    Resolved,
    TimedOut,
}

impl WaitState {
    /// The terminal state a pending wait reaches for a given pop outcome.
    pub fn after_pop(outcome: &Result<String, NeoiotError>) -> (r: WaitState)
        ensures
            r == if outcome is Ok {
                WaitState::Resolved
            } else {
                WaitState::TimedOut
            },
    {
        if outcome.is_ok() {
            WaitState::Resolved
        } else {
            WaitState::TimedOut
        }
    }
}

/// The body of the single publish call handed to the transport: the
/// encoded topic, the opaque payload, the requested quality of service,
/// and the fixed fields the management API expects.
#[derive(Debug, Clone, PartialEq, Eq)]
pub struct PublishRequest {
    pub topic: String,
    pub payload: String,
    pub qos: u8,
    pub retain: bool,
    pub encoding: String,
}

impl Message {
    /// The publish request for this envelope: one topic, one payload,
    /// never retained, plain encoding.
    pub fn publish_request(&self, qos: u8) -> (r: PublishRequest)
        ensures
            r.topic@ == topic_encoding(self.topic@),
            r.payload == self.payload,
            r.qos == qos,
            r.retain == false,
            r.encoding@ == "plain"@,
    {
        PublishRequest {
            topic: self.topic.topic(),
            payload: self.payload.clone(),
            qos,
            retain: false,
            encoding: String::from_str("plain"),
        }
    }
}

/// The management API endpoint publish requests are posted to.
pub fn management_url(config: &EmqxConfig) -> (r: String)
    ensures
        r@ == config.management_host@ + "/api/v4/mqtt/publish"@,
{
    let mut url = config.management_host.clone();
    url.append("/api/v4/mqtt/publish");
    url
}

/// Builds the envelope for a command to one device: a fresh correlation
/// id, the single-device topic shape, and the request's payload.
pub fn device_command(account_id: &str, device_id: &str, req: &SendCommandToDevice) -> (r: Message)
    ensures
        r.topic@ matches TopicsView::S2D(v) && v.account_id == account_id@ && v.device_id
            == device_id@ && v.command == req.command@ && v.is_sync == req.is_sync && v.ttl
            == req.ttl && is_correlation_id(v.message_id) && no_slash(v.message_id),
        r.payload == req.payload,
{
    let cmd = ServerToDevice::new(account_id, device_id, req.command.as_str(), req.is_sync, req.ttl);
    proof {
        lemma_correlation_id_no_slash(cmd.message_id@);
    }
    Message::new(Topics::S2D(cmd), req.payload.clone())
}

/// Builds the envelope for a command to a device group: a fresh
/// correlation id, the group topic shape, and the request's payload.
/// Group commands are always asynchronous.
pub fn label_command(account_id: &str, label_name: &str, req: &SendCommandToDeviceBatch) -> (r:
    Message)
    ensures
        r.topic@ matches TopicsView::S2L(v) && v.account_id == account_id@ && v.label
            == label_name@ && v.command == req.command@ && v.ttl == req.ttl && is_correlation_id(
            v.message_id,
        ) && no_slash(v.message_id),
        r.payload == req.payload,
{
    let cmd = ServerToDeviceBatch::new(account_id, label_name, req.command.as_str(), req.ttl);
    proof {
        lemma_correlation_id_no_slash(cmd.message_id@);
    }
    Message::new(Topics::S2L(cmd), req.payload.clone())
}

/// Blocks on the response store at `correlation_id` for up to `timeout`
/// seconds. Returns the device's reply if one is present, and `Timeout`
/// when the bound elapses with none; the key is never written, so other
/// keys are untouched either way.
pub fn await_response<C: Cache>(cache: &mut C, correlation_id: &str, timeout: usize) -> (r: Result<
    String,
    NeoiotError,
>)
    ensures
        store_has_value(old(cache).contents(), correlation_id@) ==> (r matches Ok(v) && v@ == old(
            cache,
        ).contents()[correlation_id@][0] && final(cache).contents() == store_popped(
            old(cache).contents(),
            correlation_id@,
        )),
        !store_has_value(old(cache).contents(), correlation_id@) ==> r == Err::<
            String,
            NeoiotError,
        >(NeoiotError::Timeout) && final(cache).contents() == old(cache).contents(),
{
    match cache.block_pop(correlation_id, timeout) {
        Ok(v) => Ok(v),
        Err(_) => Err(NeoiotError::Timeout),
    }
}

/// Resolves a dispatched command: an asynchronous command yields its
/// correlation id at once and never touches the store; a synchronous one
/// waits on its own correlation key and yields the device's reply, or
/// `Timeout` if none arrives within the bound.
pub fn resolve_command<C: Cache>(
    cache: &mut C,
    message_id: String,
    is_sync: bool,
    sync_timeout: usize,
) -> (r: Result<CommandResponse, NeoiotError>)
    ensures
        !is_sync ==> r == Ok::<CommandResponse, NeoiotError>(
            CommandResponse::Async(AsyncCommandResponse { message_id }),
        ) && final(cache).contents() == old(cache).contents(),
        is_sync && store_has_value(old(cache).contents(), message_id@) ==> (r matches Ok(c)
            && c matches CommandResponse::Sync(s) && s.response@ == old(
            cache,
        ).contents()[message_id@][0] && final(cache).contents() == store_popped(
            old(cache).contents(),
            message_id@,
        )),
        is_sync && !store_has_value(old(cache).contents(), message_id@) ==> r == Err::<
            CommandResponse,
            NeoiotError,
        >(NeoiotError::Timeout) && final(cache).contents() == old(cache).contents(),
{
    if !is_sync {
        return Ok(CommandResponse::new_async(message_id));
    }
    let response = await_response(cache, message_id.as_str(), sync_timeout)?;
    Ok(CommandResponse::new_sync(response))
}

/// Resolves a dispatched command from a wait outcome obtained elsewhere:
/// an asynchronous command yields its correlation id, a synchronous one
/// yields the reply popped for it, or `Timeout` when the wait produced
/// none.
pub fn command_outcome(message_id: String, is_sync: bool, response: Option<String>) -> (r: Result<
    CommandResponse,
    NeoiotError,
>)
    ensures
        !is_sync ==> r == Ok::<CommandResponse, NeoiotError>(
            CommandResponse::Async(AsyncCommandResponse { message_id }),
        ),
        is_sync ==> r == match response {
            Some(v) => Ok::<CommandResponse, NeoiotError>(
                CommandResponse::Sync(SyncCommandResponse { response: v }),
            ),
            None => Err::<CommandResponse, NeoiotError>(NeoiotError::Timeout),
        },
{
    if !is_sync {
        return Ok(CommandResponse::new_async(message_id));
    }
    match response {
        Some(v) => Ok(CommandResponse::new_sync(v)),
        None => Err(NeoiotError::Timeout),
    }
}

} // verus!
