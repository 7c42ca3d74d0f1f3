use neoiot::oai_schema::CreateDevice;
use neoiot::oai_schema::UpdateDevice;
use neoiot::provision::apply_device_update;
use neoiot::provision::contains_str;
use neoiot::provision::label_diff;
use neoiot::provision::provision_device;

fn strings(items: &[&str]) -> Vec<String> {
    items.iter().map(|s| s.to_string()).collect()
}

#[test]
fn provisioning_derives_credentials_and_rules() {
    let req = CreateDevice {
        name: "sensor-1".to_string(),
        schema_id: "schema-7".to_string(),
        label_ids: strings(&["lab1"]),
        mqtt_password: "SECRET-REDACTED".to_string(),
    };
    let record = provision_device("acc1", &req);
    assert_eq!(record.id.len(), 20);
    assert_eq!(record.account_id, "acc1");
    assert_eq!(record.schema_id, "schema-7");
    assert_eq!(record.name, "sensor-1");
    assert_eq!(record.mqtt_username, format!("{}/acc1", record.id));
    assert_eq!(record.label_version, 0);
    assert!(record.is_active);
    assert!(!record.is_online);
    assert!(!record.is_super_device);
    assert_eq!(
        record.acl_pubs,
        vec![
            format!("d2d/acc1/+/{}/+", record.id),
            format!("d2s/acc1/{}/+/+", record.id),
            format!("s2dr/acc1/{}/+/+/+/#", record.id),
            format!("metrics/acc1/{}/+", record.id),
        ]
    );
    assert_eq!(
        record.acl_subs,
        vec![
            format!("s2d/acc1/{}/+/+/+/#", record.id),
            "s2l/acc1/+/+/+/#".to_string(),
            format!("d2d/acc1/{}/+/+", record.id),
        ]
    );
}

#[test]
fn label_diff_separates_additions_and_removals() {
    let old_ids = strings(&["a", "b", "c"]);
    let new_ids = strings(&["b", "d", "d", "e"]);
    let (add, del) = label_diff(&old_ids, &new_ids);
    assert_eq!(add, strings(&["d", "e"]));
    assert_eq!(del, strings(&["a", "c"]));
}

#[test]
fn label_diff_of_equal_sets_is_empty() {
    let old_ids = strings(&["a", "b"]);
    let new_ids = strings(&["b", "a", "a"]);
    let (add, del) = label_diff(&old_ids, &new_ids);
    assert!(add.is_empty());
    assert!(del.is_empty());
}

#[test]
fn contains_str_compares_characters() {
    let ids = strings(&["alpha", "beta"]);
    assert!(contains_str(&ids, "beta"));
    assert!(!contains_str(&ids, "bet"));
    assert!(!contains_str(&ids, "gamma"));
}

#[test]
fn update_overwrites_requested_fields_only() {
    let req = CreateDevice {
        name: "sensor-1".to_string(),
        schema_id: "schema-7".to_string(),
        label_ids: strings(&[]),
        mqtt_password: "SECRET-REDACTED".to_string(),
    };
    let record = provision_device("acc1", &req);
    let device_id_before = record.id.clone();
    let update = UpdateDevice {
        name: Some("sensor-renamed".to_string()),
        is_active: Some(false),
        label_ids: None,
        schema_id: None,
    };
    let (updated, add, del) = apply_device_update(record, &update, &strings(&[]), 777);
    assert_eq!(updated.name, "sensor-renamed");
    assert!(!updated.is_active);
    assert_eq!(updated.schema_id, "schema-7");
    assert_eq!(updated.id, device_id_before);
    // No label change requested: relations untouched, version kept.
    assert!(add.is_empty());
    assert!(del.is_empty());
    assert_eq!(updated.label_version, 0);
}

#[test]
fn update_stamps_label_version_only_on_a_real_change() {
    let req = CreateDevice {
        name: "sensor-1".to_string(),
        schema_id: "schema-7".to_string(),
        label_ids: strings(&[]),
        mqtt_password: "SECRET-REDACTED".to_string(),
    };
    let record = provision_device("acc1", &req);
    let same_set = UpdateDevice {
        name: None,
        is_active: None,
        label_ids: Some(strings(&["b", "a"])),
        schema_id: None,
    };
    let (updated, add, del) = apply_device_update(record, &same_set, &strings(&["a", "b"]), 777);
    assert!(add.is_empty());
    assert!(del.is_empty());
    assert_eq!(updated.label_version, 0);

    let new_set = UpdateDevice {
        name: None,
        is_active: None,
        label_ids: Some(strings(&["a", "c"])),
        schema_id: None,
    };
    let (updated, add, del) = apply_device_update(updated, &new_set, &strings(&["a", "b"]), 777);
    assert_eq!(add, strings(&["c"]));
    assert_eq!(del, strings(&["b"]));
    assert_eq!(updated.label_version, 777);
}
