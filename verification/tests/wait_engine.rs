use neoiot::cache::Cache;
use neoiot::cache::MemoryCache;
use neoiot::dispatch::WaitState;
use neoiot::dispatch::command_outcome;
use neoiot::dispatch::await_response;
use neoiot::dispatch::resolve_command;
use neoiot::errors::NeoiotError;
use neoiot::oai_schema::AsyncCommandResponse;
use neoiot::oai_schema::CommandResponse;
use neoiot::oai_schema::SyncCommandResponse;

#[test]
fn wait_times_out_when_nothing_is_pushed() {
    let mut cache = MemoryCache::new();
    assert_eq!(await_response(&mut cache, "abc123", 5), Err(NeoiotError::Timeout));
}

#[test]
fn wait_returns_the_pushed_value() {
    let mut cache = MemoryCache::new();
    cache.lpush("abc123", "done").unwrap();
    assert_eq!(await_response(&mut cache, "abc123", 5), Ok("done".to_string()));
    // First pop wins: a second wait on the same key times out.
    assert_eq!(await_response(&mut cache, "abc123", 5), Err(NeoiotError::Timeout));
}

#[test]
fn pushes_to_one_key_pop_in_order() {
    let mut cache = MemoryCache::new();
    cache.lpush("k", "first").unwrap();
    cache.lpush("k", "second").unwrap();
    assert_eq!(await_response(&mut cache, "k", 1), Ok("first".to_string()));
    assert_eq!(await_response(&mut cache, "k", 1), Ok("second".to_string()));
    assert_eq!(await_response(&mut cache, "k", 1), Err(NeoiotError::Timeout));
}

#[test]
fn distinct_correlation_ids_never_cross_deliver() {
    let mut cache = MemoryCache::new();
    let pairs = [("id-a", "payload-a"), ("id-b", "payload-b"), ("id-c", "payload-c")];
    for (key, payload) in pairs {
        cache.lpush(key, payload).unwrap();
    }
    // Resolve in a different order than the pushes arrived.
    assert_eq!(await_response(&mut cache, "id-b", 1), Ok("payload-b".to_string()));
    assert_eq!(await_response(&mut cache, "id-a", 1), Ok("payload-a".to_string()));
    assert_eq!(await_response(&mut cache, "id-c", 1), Ok("payload-c".to_string()));
}

#[test]
fn resolve_async_returns_message_id_without_waiting() {
    let mut cache = MemoryCache::new();
    let r = resolve_command(&mut cache, "mid42".to_string(), false, 5).unwrap();
    assert_eq!(
        r,
        CommandResponse::Async(AsyncCommandResponse { message_id: "mid42".to_string() })
    );
}

#[test]
fn resolve_sync_returns_reply_or_timeout() {
    let mut cache = MemoryCache::new();
    cache.lpush("mid42", "ok").unwrap();
    let r = resolve_command(&mut cache, "mid42".to_string(), true, 5).unwrap();
    assert_eq!(r, CommandResponse::Sync(SyncCommandResponse { response: "ok".to_string() }));
    assert_eq!(
        resolve_command(&mut cache, "mid42".to_string(), true, 5),
        Err(NeoiotError::Timeout)
    );
}

#[test]
fn command_outcome_mirrors_the_wait_result() {
    assert_eq!(
        command_outcome("mid1".to_string(), false, None),
        Ok(CommandResponse::Async(AsyncCommandResponse { message_id: "mid1".to_string() }))
    );
    assert_eq!(
        command_outcome("mid1".to_string(), true, Some("ok".to_string())),
        Ok(CommandResponse::Sync(SyncCommandResponse { response: "ok".to_string() }))
    );
    assert_eq!(
        command_outcome("mid1".to_string(), true, None),
        Err(NeoiotError::Timeout)
    );
}

#[test]
fn wait_state_reaches_the_right_terminal() {
    assert_eq!(WaitState::after_pop(&Ok("ok".to_string())), WaitState::Resolved);
    assert_eq!(WaitState::after_pop(&Err(NeoiotError::Timeout)), WaitState::TimedOut);
}
