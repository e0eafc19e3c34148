//! Document updates computed for the storage layer.

use opcua_proxy::db::{
    build_data_change_update, build_health_action, DataChangeMessage, FieldValue, HealthCommand,
    HealthDbAction, HealthMessage, UpdatedAtValue,
};
use opcua_proxy::subscription::TagChange;
use opcua_proxy::variant::{storage_value_eq, StorageValue, Variant};

#[test]
fn data_change_update_sets_value_and_timestamp_fields() {
    let message = DataChangeMessage {
        partner_id: "P1".to_string(),
        changes: vec![
            TagChange {
                tag_name: "A".to_string(),
                value: Variant::Boolean(true),
                source_timestamp: 42,
            },
            TagChange {
                tag_name: "B".to_string(),
                value: Variant::Int32(7),
                source_timestamp: 43,
            },
        ],
    };
    let update = build_data_change_update(&message);
    assert_eq!(update.partner_id, "P1");
    assert_eq!(update.updated_at, UpdatedAtValue::Now);
    assert_eq!(update.fields.len(), 4);
    assert_eq!(update.fields[0].0, "val.A");
    match &update.fields[0].1 {
        FieldValue::Value(v) => assert!(storage_value_eq(v, &StorageValue::Boolean(true))),
        other => panic!("expected a value field, got {other:?}"),
    }
    assert_eq!(update.fields[1].0, "ts.A");
    assert!(matches!(update.fields[1].1, FieldValue::Timestamp(42)));
    assert_eq!(update.fields[2].0, "val.B");
    assert_eq!(update.fields[3].0, "ts.B");
    assert!(matches!(update.fields[3].1, FieldValue::Timestamp(43)));
}

#[test]
fn empty_batch_touches_only_the_sentinel_marker() {
    let message = DataChangeMessage {
        partner_id: "P1".to_string(),
        changes: vec![],
    };
    let update = build_data_change_update(&message);
    assert_eq!(update.updated_at, UpdatedAtValue::SecondBeforeEpoch);
    assert!(update.fields.is_empty());
}

#[test]
fn health_update_becomes_an_upsert() {
    let message = HealthMessage {
        partner_id: "P1".to_string(),
        command: HealthCommand::Update(99),
    };
    match build_health_action(&message) {
        HealthDbAction::Upsert {
            partner_id,
            server_timestamp,
        } => {
            assert_eq!(partner_id, "P1");
            assert_eq!(server_timestamp, 99);
        }
        other => panic!("expected an upsert, got {other:?}"),
    }
}

#[test]
fn health_removal_becomes_a_delete() {
    let message = HealthMessage {
        partner_id: "P1".to_string(),
        command: HealthCommand::Remove,
    };
    match build_health_action(&message) {
        HealthDbAction::Delete { partner_id } => assert_eq!(partner_id, "P1"),
        other => panic!("expected a delete, got {other:?}"),
    }
}
