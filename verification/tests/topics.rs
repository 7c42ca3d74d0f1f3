use neoiot::errors::NeoiotError;
use neoiot::topics::ACLRules;
use neoiot::topics::ServerToDevice;
use neoiot::topics::ServerToDeviceBatch;
use neoiot::topics::Topics;
use neoiot::topics::rules_for;

fn sample_s2d(is_sync: bool, ttl: Option<usize>) -> ServerToDevice {
    ServerToDevice {
        message_id: "abc123".to_string(),
        account_id: "acc1".to_string(),
        device_id: "dev1".to_string(),
        command: "reboot".to_string(),
        is_sync,
        ttl,
    }
}

fn sample_s2l(ttl: Option<usize>) -> ServerToDeviceBatch {
    ServerToDeviceBatch {
        message_id: "abc123".to_string(),
        account_id: "acc1".to_string(),
        label: "lab1".to_string(),
        command: "upgrade".to_string(),
        ttl,
    }
}

#[test]
fn test_topic() {
    let topic = "s2d/test_account/test_device/test_command/sync/test_message_id";
    assert_eq!(
        topic.parse::<Topics>().unwrap(),
        Topics::S2D(ServerToDevice {
            message_id: "test_message_id".to_string(),
            account_id: "test_account".to_string(),
            device_id: "test_device".to_string(),
            command: "test_command".to_string(),
            is_sync: true,
            ttl: None,
        })
    );
    let topic = "s2d/test_account/test_device/test_command/async/test_message_id/3600";
    assert_eq!(
        topic.parse::<Topics>().unwrap(),
        Topics::S2D(ServerToDevice {
            message_id: "test_message_id".to_string(),
            account_id: "test_account".to_string(),
            device_id: "test_device".to_string(),
            is_sync: false,
            command: "test_command".to_string(),
            ttl: Some(3600),
        })
    );
    let topic = "cmd/test_account/test_device/test_command/sync/test_message_id/3600/fake";
    assert!(topic.parse::<Topics>().is_err(),);
    let topic = "blablabla/test_account/test_device/async/test_command/test_message_id/3600";
    assert!(topic.parse::<Topics>().is_err(),);
}

#[test]
fn encode_s2d_sync_without_ttl() {
    let cmd = sample_s2d(true, None);
    assert_eq!(cmd.topic(), "s2d/acc1/dev1/reboot/sync/abc123");
}

#[test]
fn encode_s2d_async_with_ttl() {
    let cmd = sample_s2d(false, Some(3600));
    assert_eq!(cmd.topic(), "s2d/acc1/dev1/reboot/async/abc123/3600");
}

#[test]
fn encode_s2l_without_ttl_has_trailing_empty_segment() {
    let cmd = sample_s2l(None);
    assert_eq!(cmd.topic(), "s2l/acc1/lab1/upgrade/abc123/");
}

#[test]
fn encode_s2l_with_ttl() {
    let cmd = sample_s2l(Some(600));
    assert_eq!(cmd.topic(), "s2l/acc1/lab1/upgrade/abc123/600");
}

#[test]
fn round_trip_s2d_all_variants() {
    for (is_sync, ttl) in [(true, None), (false, None), (true, Some(1usize)), (false, Some(3600))] {
        let cmd = sample_s2d(is_sync, ttl);
        let decoded = Topics::decode(&cmd.topic()).unwrap();
        assert_eq!(decoded, Topics::S2D(cmd));
    }
}

#[test]
fn round_trip_s2l_all_variants() {
    for ttl in [None, Some(1usize), Some(600)] {
        let cmd = sample_s2l(ttl);
        let decoded = Topics::decode(&cmd.topic()).unwrap();
        assert_eq!(decoded, Topics::S2L(cmd));
    }
}

#[test]
fn decode_s2d_with_ttl_literal() {
    let decoded = Topics::decode("s2d/acc1/dev1/reboot/async/abc123/3600").unwrap();
    assert_eq!(
        decoded,
        Topics::S2D(ServerToDevice {
            message_id: "abc123".to_string(),
            account_id: "acc1".to_string(),
            device_id: "dev1".to_string(),
            command: "reboot".to_string(),
            is_sync: false,
            ttl: Some(3600),
        })
    );
}

#[test]
fn decode_rejects_unknown_prefix_and_bad_segment_count() {
    let bad = "cmd/acc1/dev1/reboot/sync/abc123/3600/extra";
    match Topics::decode(bad) {
        Err(NeoiotError::InvalidTopic(orig)) => assert_eq!(orig, bad),
        other => panic!("expected InvalidTopic, got {:?}", other),
    }
    assert!(Topics::decode("s2d/acc1/dev1/reboot/sync").is_err());
    assert!(Topics::decode("s2d/acc1/dev1/reboot/sync/abc123/3600/extra").is_err());
    assert!(Topics::decode("s2l/acc1/lab1/upgrade/abc123").is_err());
    assert!(Topics::decode("s2l/acc1/lab1/upgrade/abc123/600/extra").is_err());
    assert!(Topics::decode("").is_err());
}

#[test]
fn decode_degrades_malformed_ttl_to_none() {
    let decoded = Topics::decode("s2d/acc1/dev1/reboot/sync/abc123/12x").unwrap();
    assert_eq!(
        decoded,
        Topics::S2D(ServerToDevice {
            message_id: "abc123".to_string(),
            account_id: "acc1".to_string(),
            device_id: "dev1".to_string(),
            command: "reboot".to_string(),
            is_sync: true,
            ttl: None,
        })
    );
    // A leading plus sign is accepted, as integer parsing accepts it.
    let decoded = Topics::decode("s2d/acc1/dev1/reboot/sync/abc123/+12").unwrap();
    assert_eq!(
        decoded,
        Topics::S2D(ServerToDevice {
            message_id: "abc123".to_string(),
            account_id: "acc1".to_string(),
            device_id: "dev1".to_string(),
            command: "reboot".to_string(),
            is_sync: true,
            ttl: Some(12),
        })
    );
}

#[test]
fn decode_treats_any_other_mode_as_async() {
    let decoded = Topics::decode("s2d/acc1/dev1/reboot/whenever/abc123").unwrap();
    match decoded {
        Topics::S2D(cmd) => assert!(!cmd.is_sync),
        other => panic!("expected S2D, got {:?}", other),
    }
}

#[test]
fn new_commands_get_fresh_correlation_ids() {
    let a = ServerToDevice::new("acc1", "dev1", "reboot", true, None);
    let b = ServerToDevice::new("acc1", "dev1", "reboot", true, None);
    assert_eq!(a.message_id.len(), 20);
    assert!(a.message_id.chars().all(|c| c.is_ascii_digit() || ('a'..='v').contains(&c)));
    assert_ne!(a.message_id, b.message_id);
    // A freshly minted command round-trips through its own encoding.
    let decoded = Topics::decode(&a.topic()).unwrap();
    assert_eq!(decoded, Topics::S2D(a));
    let c = ServerToDeviceBatch::new("acc1", "lab1", "upgrade", Some(60));
    assert_eq!(c.message_id.len(), 20);
    let decoded = Topics::decode(&c.topic()).unwrap();
    assert_eq!(decoded, Topics::S2L(c));
}

#[test]
fn acl_patterns_are_exact() {
    let acl = ACLRules::new("acc1".to_string(), "dev1".to_string());
    assert_eq!(acl.sub_s2d(), "s2d/acc1/dev1/+/+/+/#");
    assert_eq!(acl.sub_s2l(), "s2l/acc1/+/+/+/#");
    assert_eq!(acl.sub_d2d(), "d2d/acc1/dev1/+/+");
    assert_eq!(acl.pub_s2dr(), "s2dr/acc1/dev1/+/+/+/#");
    assert_eq!(acl.pub_d2d(), "d2d/acc1/+/dev1/+");
    assert_eq!(acl.pub_d2s(), "d2s/acc1/dev1/+/+");
    assert_eq!(acl.pub_metrics(), "metrics/acc1/dev1/+");
}

#[test]
fn rules_for_yields_seven_patterns_in_fixed_order() {
    let identity = ACLRules::new("acc1".to_string(), "dev1".to_string());
    let rules = rules_for(&identity);
    assert_eq!(
        rules.publish,
        vec![
            "d2d/acc1/+/dev1/+",
            "d2s/acc1/dev1/+/+",
            "s2dr/acc1/dev1/+/+/+/#",
            "metrics/acc1/dev1/+",
        ]
    );
    assert_eq!(
        rules.subscribe,
        vec!["s2d/acc1/dev1/+/+/+/#", "s2l/acc1/+/+/+/#", "d2d/acc1/dev1/+/+"]
    );
}

#[test]
fn rules_for_is_deterministic() {
    let first = rules_for(&ACLRules::new("acc9".to_string(), "dev9".to_string()));
    let second = rules_for(&ACLRules::new("acc9".to_string(), "dev9".to_string()));
    assert_eq!(first.publish, second.publish);
    assert_eq!(first.subscribe, second.subscribe);
    assert_eq!(first.publish.len(), 4);
    assert_eq!(first.subscribe.len(), 3);
}
