use neoiot::config::EmqxConfig;
use neoiot::dispatch::device_command;
use neoiot::dispatch::label_command;
use neoiot::dispatch::management_url;
use neoiot::oai_schema::PayloadCodec;
use neoiot::oai_schema::SendCommandToDevice;
use neoiot::oai_schema::SendCommandToDeviceBatch;
use neoiot::topics::Topics;

fn device_req(is_sync: bool) -> SendCommandToDevice {
    SendCommandToDevice {
        command: "reboot".to_string(),
        codec: PayloadCodec::Plain,
        payload: "{}".to_string(),
        is_sync,
        sync_timeout: 10,
        ttl: Some(60),
        qos: 1,
    }
}

#[test]
fn device_command_builds_the_envelope() {
    let req = device_req(true);
    let msg = device_command("acc1", "dev1", &req);
    assert_eq!(msg.payload, "{}");
    match &msg.topic {
        Topics::S2D(cmd) => {
            assert_eq!(cmd.account_id, "acc1");
            assert_eq!(cmd.device_id, "dev1");
            assert_eq!(cmd.command, "reboot");
            assert!(cmd.is_sync);
            assert_eq!(cmd.ttl, Some(60));
            assert_eq!(cmd.message_id.len(), 20);
        },
        other => panic!("expected S2D, got {:?}", other),
    }
    // The envelope's topic is well-formed: it decodes back to itself.
    let decoded = Topics::decode(&msg.topic.topic()).unwrap();
    assert_eq!(decoded, msg.topic);
}

#[test]
fn label_command_builds_the_envelope() {
    let req = SendCommandToDeviceBatch {
        command: "upgrade".to_string(),
        codec: PayloadCodec::Base64,
        payload: "cGF5bG9hZA==".to_string(),
        ttl: None,
        qos: 2,
    };
    let msg = label_command("acc1", "lab1", &req);
    assert_eq!(msg.payload, "cGF5bG9hZA==");
    match &msg.topic {
        Topics::S2L(cmd) => {
            assert_eq!(cmd.account_id, "acc1");
            assert_eq!(cmd.label, "lab1");
            assert_eq!(cmd.command, "upgrade");
            assert_eq!(cmd.ttl, None);
            assert_eq!(cmd.message_id.len(), 20);
        },
        other => panic!("expected S2L, got {:?}", other),
    }
}

#[test]
fn two_dispatches_use_distinct_correlation_ids() {
    let req = device_req(false);
    let first = device_command("acc1", "dev1", &req);
    let second = device_command("acc1", "dev1", &req);
    let (Topics::S2D(a), Topics::S2D(b)) = (first.topic, second.topic) else {
        panic!("expected S2D envelopes");
    };
    assert_ne!(a.message_id, b.message_id);
}

#[test]
fn publish_request_carries_fixed_fields() {
    let req = device_req(true);
    let msg = device_command("acc1", "dev1", &req);
    let publish = msg.publish_request(req.qos);
    assert_eq!(publish.topic, msg.topic.topic());
    assert_eq!(publish.payload, "{}");
    assert_eq!(publish.qos, 1);
    assert!(!publish.retain);
    assert_eq!(publish.encoding, "plain");
}

#[test]
fn management_url_appends_the_publish_path() {
    let config = EmqxConfig {
        management_host: "http://emqx:8081".to_string(),
        app_id: "admin".to_string(),
        app_secret: "SECRET-REDACTED".to_string(),
    };
    assert_eq!(management_url(&config), "http://emqx:8081/api/v4/mqtt/publish");
}
