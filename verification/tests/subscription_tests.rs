//! Subscription binding and notification demultiplexing.

use opcua_proxy::node_identifier::{Identifier, NodeId};
use opcua_proxy::status::{ServiceError, StatusCode, STATUS_BAD_INTERNAL_ERROR, STATUS_GOOD};
use opcua_proxy::subscription::{
    data_change_message, health_message, subscribe_to_health, subscribe_to_tags, tag_changes,
    tag_for_handle, MonitoredItemCreateRequest, MonitoredItemCreateResult,
    MonitoredItemNotification, MonitoringMode, SubscriptionParameters, SubscriptionService,
    TimestampsToReturn,
};
use opcua_proxy::tag_set::{Tag, TagSet};
use opcua_proxy::variant::Variant;
use std::cell::RefCell;

/// Protocol ticks of the Unix epoch.
const UNIX_EPOCH_TICKS: i64 = 116_444_736_000_000_000;

fn tag(name: &str, numeric_id: u32) -> Tag {
    Tag {
        name: name.to_string(),
        node_id: NodeId {
            namespace: 1,
            identifier: Identifier::Numeric(numeric_id),
        },
    }
}

struct SubscriptionServiceMock {
    subscription_reply: Result<u32, ServiceError>,
    items_reply: RefCell<Option<Result<Vec<MonitoredItemCreateResult>, ServiceError>>>,
    submitted: RefCell<Vec<MonitoredItemCreateRequest>>,
}

impl SubscriptionServiceMock {
    fn new(
        subscription_reply: Result<u32, ServiceError>,
        items_reply: Result<Vec<MonitoredItemCreateResult>, ServiceError>,
    ) -> Self {
        SubscriptionServiceMock {
            subscription_reply,
            items_reply: RefCell::new(Some(items_reply)),
            submitted: RefCell::new(Vec::new()),
        }
    }
}

impl SubscriptionService for SubscriptionServiceMock {
    fn create_data_change_subscription(
        &self,
        _parameters: &SubscriptionParameters,
    ) -> Result<u32, ServiceError> {
        self.subscription_reply.clone()
    }

    fn create_health_subscription(
        &self,
        _parameters: &SubscriptionParameters,
    ) -> Result<u32, ServiceError> {
        self.subscription_reply.clone()
    }

    fn create_monitored_items(
        &self,
        _subscription_id: u32,
        _timestamps_to_return: TimestampsToReturn,
        items: &Vec<MonitoredItemCreateRequest>,
    ) -> Result<Vec<MonitoredItemCreateResult>, ServiceError> {
        for item in items {
            self.submitted.borrow_mut().push(MonitoredItemCreateRequest {
                node_id: item.node_id.clone(),
                monitoring_mode: item.monitoring_mode,
                client_handle: item.client_handle,
            });
        }
        self.items_reply
            .borrow_mut()
            .take()
            .expect("one item creation expected")
    }
}

fn good_results(n: usize) -> Vec<MonitoredItemCreateResult> {
    (0..n)
        .map(|_| MonitoredItemCreateResult {
            status_code: StatusCode { bits: STATUS_GOOD },
        })
        .collect()
}

#[test]
fn monitored_items_bind_handles_in_order() {
    let tag_set = TagSet(vec![tag("A", 3), tag("B", 4), tag("C", 5)]);
    let items = tag_set.monitored_items();
    assert_eq!(items.len(), 3);
    for (i, item) in items.iter().enumerate() {
        assert_eq!(item.client_handle, (i + 1) as u32);
        assert_eq!(item.node_id, tag_set.0[i].node_id);
        assert_eq!(item.monitoring_mode, MonitoringMode::Reporting);
    }
}

#[test]
fn subscribe_to_tags_submits_items_in_tag_order() {
    let tag_set = TagSet(vec![tag("A", 3), tag("B", 4)]);
    let mock = SubscriptionServiceMock::new(Ok(7), Ok(good_results(2)));
    let result = subscribe_to_tags(&mock, &tag_set);
    assert!(result.is_ok());
    let submitted = mock.submitted.borrow();
    assert_eq!(submitted.len(), 2);
    assert_eq!(submitted[0].client_handle, 1);
    assert_eq!(submitted[0].node_id, tag_set.0[0].node_id);
    assert_eq!(submitted[1].client_handle, 2);
    assert_eq!(submitted[1].node_id, tag_set.0[1].node_id);
}

#[test]
fn subscribe_to_tags_fails_on_bad_item_status() {
    let tag_set = TagSet(vec![tag("A", 3)]);
    let mock = SubscriptionServiceMock::new(
        Ok(7),
        Ok(vec![MonitoredItemCreateResult {
            status_code: StatusCode { bits: STATUS_BAD_INTERNAL_ERROR },
        }]),
    );
    assert!(subscribe_to_tags(&mock, &tag_set).is_err());
}

#[test]
fn subscribe_to_tags_fails_on_subscription_error() {
    let tag_set = TagSet(vec![tag("A", 3)]);
    let mock = SubscriptionServiceMock::new(
        Err(ServiceError::Status(StatusCode { bits: STATUS_BAD_INTERNAL_ERROR })),
        Ok(good_results(1)),
    );
    assert!(subscribe_to_tags(&mock, &tag_set).is_err());
}

#[test]
fn subscribe_to_health_requests_server_time() {
    let mock = SubscriptionServiceMock::new(Ok(9), Ok(good_results(1)));
    let result = subscribe_to_health(&mock);
    assert!(result.is_ok());
    let submitted = mock.submitted.borrow();
    assert_eq!(submitted.len(), 1);
    assert_eq!(
        submitted[0].node_id,
        NodeId {
            namespace: 0,
            identifier: Identifier::Numeric(2258)
        }
    );
}

#[test]
fn subscribe_to_health_fails_on_missing_result() {
    let mock = SubscriptionServiceMock::new(Ok(9), Ok(vec![]));
    assert!(subscribe_to_health(&mock).is_err());
}

#[test]
fn handle_resolves_to_previous_position() {
    let tags = vec![tag("A", 3), tag("B", 4)];
    assert_eq!(tag_for_handle(&tags, 1).map(|t| t.name.as_str()), Some("A"));
    assert_eq!(tag_for_handle(&tags, 2).map(|t| t.name.as_str()), Some("B"));
    assert!(tag_for_handle(&tags, 0).is_none());
    assert!(tag_for_handle(&tags, 3).is_none());
}

fn notification(
    client_handle: u32,
    value: Option<Variant>,
    source_timestamp: Option<i64>,
) -> MonitoredItemNotification {
    MonitoredItemNotification {
        client_handle,
        value,
        source_timestamp,
    }
}

#[test]
fn tag_changes_drops_bad_notifications_and_keeps_the_rest() {
    let tag_set = TagSet(vec![tag("A", 3), tag("B", 4)]);
    let items = vec![
        notification(1, Some(Variant::Boolean(true)), Some(UNIX_EPOCH_TICKS)),
        notification(0, Some(Variant::Boolean(true)), Some(UNIX_EPOCH_TICKS)),
        notification(9, Some(Variant::Boolean(true)), Some(UNIX_EPOCH_TICKS)),
        notification(2, None, Some(UNIX_EPOCH_TICKS)),
        notification(2, Some(Variant::Boolean(false)), None),
        notification(2, Some(Variant::Int32(5)), Some(UNIX_EPOCH_TICKS + 10_000)),
    ];
    let changes = tag_changes(&tag_set, items);
    assert_eq!(changes.len(), 2);
    assert_eq!(changes[0].tag_name, "A");
    assert!(matches!(changes[0].value, Variant::Boolean(true)));
    assert_eq!(changes[0].source_timestamp, 0);
    assert_eq!(changes[1].tag_name, "B");
    assert!(matches!(changes[1].value, Variant::Int32(5)));
    assert_eq!(changes[1].source_timestamp, 1);
}

#[test]
fn empty_batch_is_discarded() {
    let tag_set = TagSet(vec![tag("A", 3)]);
    let items = vec![notification(5, Some(Variant::Boolean(true)), Some(0))];
    assert!(data_change_message("P1", &tag_set, items).is_none());
}

#[test]
fn health_message_extracts_server_time() {
    let items = vec![notification(
        0,
        Some(Variant::DateTime(UNIX_EPOCH_TICKS)),
        None,
    )];
    let message = health_message("P1", &items).expect("a health update");
    assert_eq!(message.partner_id, "P1");
    assert_eq!(
        message.command,
        opcua_proxy::db::HealthCommand::Update(0)
    );
}

#[test]
fn health_message_rejects_non_time_values() {
    let items = vec![notification(0, Some(Variant::Boolean(true)), None)];
    assert!(health_message("P1", &items).is_none());
    assert!(health_message("P1", &Vec::new()).is_none());
}

#[test]
fn subscription_lock_timeout_is_an_error() {
    let tag_set = TagSet(vec![tag("A", 3)]);
    let mock = SubscriptionServiceMock::new(Err(ServiceError::LockTimeout), Ok(good_results(1)));
    assert_eq!(
        subscribe_to_tags(&mock, &tag_set).unwrap_err(),
        opcua_proxy::subscription::SubscribeError::LockTimeout
    );
}

#[test]
fn monitored_items_creation_error_is_reported() {
    let tag_set = TagSet(vec![tag("A", 3)]);
    let bad = StatusCode { bits: STATUS_BAD_INTERNAL_ERROR };
    let mock = SubscriptionServiceMock::new(Ok(7), Err(ServiceError::Status(bad)));
    assert_eq!(
        subscribe_to_tags(&mock, &tag_set).unwrap_err(),
        opcua_proxy::subscription::SubscribeError::MonitoredItemsCreation(bad)
    );
}

#[test]
fn health_bad_item_status_is_reported() {
    let bad = StatusCode { bits: STATUS_BAD_INTERNAL_ERROR };
    let mock = SubscriptionServiceMock::new(Ok(9), Ok(vec![MonitoredItemCreateResult {
        status_code: bad,
    }]));
    assert_eq!(
        subscribe_to_health(&mock).unwrap_err(),
        opcua_proxy::subscription::SubscribeError::BadItemStatus(bad)
    );
}
