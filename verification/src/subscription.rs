//! Subscriptions and notification demultiplexing: creates the data-change
//! and heartbeat subscriptions, binds each resolved tag to a monitored item
//! whose client handle is its position plus one, and turns delivered
//! notifications back into typed change records through that binding.

use crate::datetime::{spec_unix_millis, unix_millis_from_ticks};
use crate::db::{DataChangeMessage, HealthCommand, HealthMessage};
use crate::node_identifier::{Identifier, NodeId};
use crate::status::{ServiceError, StatusCode};
use crate::tag_set::{Tag, TagSet};
use crate::variant::Variant;
use vstd::prelude::*;

verus! {

/// Numeric identifier of the server's current-time variable.
pub const VARIABLE_SERVER_STATUS_CURRENT_TIME: u32 = 2258;

/// How a monitored item reports.
#[derive(Clone, Copy, Debug, PartialEq, Eq, Structural)]
pub enum MonitoringMode {
    Disabled,
    Sampling,
    Reporting,
}

/// Which timestamps the server should attach to notifications.
#[derive(Clone, Copy, Debug, PartialEq, Eq, Structural)]
pub enum TimestampsToReturn {
    Source,
    Server,
    Both,
    Neither,
}

/// Parameters of one subscription.
#[derive(Clone, Copy, Debug, PartialEq, Eq, Structural)]
pub struct SubscriptionParameters {
    /// Publishing interval, in milliseconds.
    pub publishing_interval_ms: u64,
    pub lifetime_count: u32,
    pub max_keep_alive_count: u32,
    pub max_notifications_per_publish: u32,
    pub priority: u8,
    pub publishing_enabled: bool,
}

/// Parameters of the data-change subscription: a one-second publishing
/// interval with default priority and unbounded notifications per publish.
pub fn data_change_subscription_parameters() -> (r: SubscriptionParameters)
    ensures
        r == (SubscriptionParameters {
            publishing_interval_ms: 1000,
            lifetime_count: 50,
            max_keep_alive_count: 10,
            max_notifications_per_publish: 0,
            priority: 0,
            publishing_enabled: true,
        }),
{
    SubscriptionParameters {
        publishing_interval_ms: 1000,
        lifetime_count: 50,
        max_keep_alive_count: 10,
        max_notifications_per_publish: 0,
        priority: 0,
        publishing_enabled: true,
    }
}

/// Parameters of the heartbeat subscription: the health interval, one
/// notification per publish.
pub fn health_subscription_parameters() -> (r: SubscriptionParameters)
    ensures
        r == (SubscriptionParameters {
            publishing_interval_ms: crate::OPCUA_HEALTH_INTERVAL as u64,
            lifetime_count: 50,
            max_keep_alive_count: 10,
            max_notifications_per_publish: 1,
            priority: 0,
            publishing_enabled: true,
        }),
{
    SubscriptionParameters {
        publishing_interval_ms: crate::OPCUA_HEALTH_INTERVAL as u64,
        lifetime_count: 50,
        max_keep_alive_count: 10,
        max_notifications_per_publish: 1,
        priority: 0,
        publishing_enabled: true,
    }
}

/// A request to monitor one node, identified in later notifications by the
/// client handle given here.
#[derive(Debug, PartialEq, Eq)]
pub struct MonitoredItemCreateRequest {
    pub node_id: NodeId,
    pub monitoring_mode: MonitoringMode,
    pub client_handle: u32,
}

/// The server's verdict on one monitored-item creation.
#[derive(Clone, Copy, Debug, PartialEq, Eq, Structural)]
pub struct MonitoredItemCreateResult {
    pub status_code: StatusCode,
}

/// The part of a session that can create subscriptions and monitored items.
/// The live protocol session implements it outside the library, installing
/// the data-change or heartbeat callback as the method name says; tests
/// implement it with canned replies.
pub trait SubscriptionService {
    /// Creates the data-change subscription and returns its identifier.
    fn create_data_change_subscription(&self, parameters: &SubscriptionParameters) -> Result<
        u32,
        ServiceError,
    >;

    /// Creates the heartbeat subscription and returns its identifier.
    fn create_health_subscription(&self, parameters: &SubscriptionParameters) -> Result<
        u32,
        ServiceError,
    >;

    /// Creates one monitored item per request, in request order.
    fn create_monitored_items(
        &self,
        subscription_id: u32,
        timestamps_to_return: TimestampsToReturn,
        items: &Vec<MonitoredItemCreateRequest>,
    ) -> Result<Vec<MonitoredItemCreateResult>, ServiceError>;
}

/// Why binding a subscription failed.
#[derive(Clone, Copy, Debug, PartialEq, Eq, Structural)]
pub enum SubscribeError {
    /// The session lock was not acquired in time.
    LockTimeout,
    /// Creating the subscription failed with this status.
    SubscriptionCreation(StatusCode),
    /// The monitored-item creation call failed with this status.
    MonitoredItemsCreation(StatusCode),
    /// The reply carried no result for a requested monitored item.
    MissingResult,
    /// A monitored item was refused with this status.
    BadItemStatus(StatusCode),
}

impl TagSet {
    /// Builds the monitored-item requests for this tag set, in tag order:
    /// the item at position `i` monitors tag `i`'s node and carries client
    /// handle `i + 1`.
    pub fn monitored_items(&self) -> (r: Vec<MonitoredItemCreateRequest>)
        requires
            self.0@.len() <= u32::MAX,
        ensures
            r@.len() == self.0@.len(),
            forall|i: int|
                0 <= i < r@.len() ==> #[trigger] r@[i] == (MonitoredItemCreateRequest {
                    node_id: self.0@[i].node_id,
                    monitoring_mode: MonitoringMode::Reporting,
                    client_handle: (i + 1) as u32,
                }),
    {
        let mut items: Vec<MonitoredItemCreateRequest> = Vec::new();
        let mut i: usize = 0;
        while i < self.0.len()
            invariant
                i <= self.0@.len(),
                self.0@.len() <= u32::MAX,
                items@.len() == i,
                forall|j: int|
                    0 <= j < i ==> #[trigger] items@[j] == (MonitoredItemCreateRequest {
                        node_id: self.0@[j].node_id,
                        monitoring_mode: MonitoringMode::Reporting,
                        client_handle: (j + 1) as u32,
                    }),
            decreases self.0@.len() - i,
        {
            items.push(
                MonitoredItemCreateRequest {
                    node_id: self.0[i].node_id.clone(),
                    monitoring_mode: MonitoringMode::Reporting,
                    client_handle: (i + 1) as u32,
                },
            );
            i += 1;
        }
        items
    }
}

/// The request that monitors the server's current-time variable for the
/// heartbeat subscription.
pub fn health_monitored_item() -> (r: MonitoredItemCreateRequest)
    ensures
        r == (MonitoredItemCreateRequest {
            node_id: NodeId {
                namespace: 0,
                identifier: Identifier::Numeric(VARIABLE_SERVER_STATUS_CURRENT_TIME),
            },
            monitoring_mode: MonitoringMode::Reporting,
            client_handle: 0,
        }),
{
    MonitoredItemCreateRequest {
        node_id: NodeId {
            namespace: 0,
            identifier: Identifier::Numeric(VARIABLE_SERVER_STATUS_CURRENT_TIME),
        },
        monitoring_mode: MonitoringMode::Reporting,
        client_handle: 0,
    }
}

/// Verdict on a list of monitored-item creation results: `Ok` exactly when
/// every item was accepted, else the first refused item's status.
pub open spec fn spec_check_results(results: Seq<MonitoredItemCreateResult>) -> Result<
    (),
    SubscribeError,
>
    decreases results.len(),
{
    if results.len() == 0 {
        Ok(())
    } else if !results[0].status_code.spec_is_good() {
        Err(SubscribeError::BadItemStatus(results[0].status_code))
    } else {
        spec_check_results(results.drop_first())
    }
}

/// Every creation result must be good; the first refused item's status is
/// reported.
pub fn check_monitored_item_results(results: &Vec<MonitoredItemCreateResult>) -> (r: Result<
    (),
    SubscribeError,
>)
    ensures
        r == spec_check_results(results@),
        r is Ok <==> (forall|i: int|
            0 <= i < results@.len() ==> (#[trigger] results@[i]).status_code.spec_is_good()),
{
    proof {
        lemma_check_results_all_good(results@);
        assert(results@.skip(0) =~= results@);
    }
    let mut i: usize = 0;
    while i < results.len()
        invariant
            i <= results@.len(),
            spec_check_results(results@) == spec_check_results(results@.skip(i as int)),
            forall|j: int|
                0 <= j < i ==> (#[trigger] results@[j]).status_code.spec_is_good(),
        decreases results@.len() - i,
    {
        if !results[i].status_code.is_good() {
            proof {
                assert(results@.skip(i as int)[0] == results@[i as int]);
            }
            return Err(SubscribeError::BadItemStatus(results[i].status_code));
        }
        proof {
            assert(results@.skip(i as int)[0] == results@[i as int]);
            assert(results@.skip(i as int).drop_first() =~= results@.skip(i as int + 1));
        }
        i += 1;
    }
    proof {
        assert(results@.skip(results@.len() as int) =~= Seq::<
            MonitoredItemCreateResult,
        >::empty());
    }
    Ok(())
}

/// The verdict is `Ok` exactly when every result is good.
proof fn lemma_check_results_all_good(results: Seq<MonitoredItemCreateResult>)
    ensures
        spec_check_results(results) is Ok <==> (forall|i: int|
            0 <= i < results.len() ==> (#[trigger] results[i]).status_code.spec_is_good()),
    decreases results.len(),
{
    if results.len() > 0 {
        lemma_check_results_all_good(results.drop_first());
        if results[0].status_code.spec_is_good() {
            assert forall|i: int|
                0 <= i < results.len() && spec_check_results(results) is Ok implies (
            #[trigger] results[i]).status_code.spec_is_good() by {
                if i > 0 {
                    assert(results.drop_first()[i - 1] == results[i]);
                }
            }
            if forall|i: int|
                0 <= i < results.len() ==> (#[trigger] results[i]).status_code.spec_is_good() {
                assert forall|i: int| 0 <= i < results.drop_first().len() implies (
                #[trigger] results.drop_first()[i]).status_code.spec_is_good() by {
                    assert(results.drop_first()[i] == results[i + 1]);
                }
            }
        }
    }
}

/// What binding the data-change subscription returns, given the two replies
/// the session gave: a failed subscription creation or item creation maps to
/// its error, and otherwise every item must have been accepted.
pub open spec fn spec_subscribe_tags_outcome(
    subscription_reply: Result<u32, ServiceError>,
    items_reply: Result<Vec<MonitoredItemCreateResult>, ServiceError>,
) -> Result<(), SubscribeError> {
    match subscription_reply {
        Err(ServiceError::LockTimeout) => Err(SubscribeError::LockTimeout),
        Err(ServiceError::Status(code)) => Err(SubscribeError::SubscriptionCreation(code)),
        Ok(_) => match items_reply {
            Err(ServiceError::LockTimeout) => Err(SubscribeError::LockTimeout),
            Err(ServiceError::Status(code)) => Err(SubscribeError::MonitoredItemsCreation(code)),
            Ok(results) => spec_check_results(results@),
        },
    }
}

/// Creates the data-change subscription for a resolved tag set: one
/// monitored item per tag, submitted in tag order with client handle
/// `position + 1`, with source timestamps requested. The session's replies
/// decide the outcome as [`spec_subscribe_tags_outcome`] says.
pub fn subscribe_to_tags<T: SubscriptionService>(session: &T, tag_set: &TagSet) -> (r: Result<
    (),
    SubscribeError,
>)
    requires
        tag_set.0@.len() <= u32::MAX,
    ensures
        exists|
            subscription_reply: Result<u32, ServiceError>,
            items_reply: Result<Vec<MonitoredItemCreateResult>, ServiceError>,
        |
            r == #[trigger] spec_subscribe_tags_outcome(subscription_reply, items_reply),
{
    let parameters = data_change_subscription_parameters();
    let subscription_reply = session.create_data_change_subscription(&parameters);
    let ghost sub_witness = subscription_reply;
    let subscription_id = match subscription_reply {
        Ok(subscription_id) => subscription_id,
        Err(ServiceError::LockTimeout) => {
            proof {
                let any_items = arbitrary::<Result<Vec<MonitoredItemCreateResult>, ServiceError>>();
                assert(Err::<(), SubscribeError>(SubscribeError::LockTimeout)
                    == spec_subscribe_tags_outcome(sub_witness, any_items));
            }
            return Err(SubscribeError::LockTimeout);
        },
        Err(ServiceError::Status(code)) => {
            proof {
                let any_items = arbitrary::<Result<Vec<MonitoredItemCreateResult>, ServiceError>>();
                assert(Err::<(), SubscribeError>(SubscribeError::SubscriptionCreation(code))
                    == spec_subscribe_tags_outcome(sub_witness, any_items));
            }
            return Err(SubscribeError::SubscriptionCreation(code));
        },
    };
    let items_to_create = tag_set.monitored_items();
    let items_reply = session.create_monitored_items(
        subscription_id,
        TimestampsToReturn::Source,
        &items_to_create,
    );
    let ghost items_witness = items_reply;
    match items_reply {
        Err(ServiceError::LockTimeout) => {
            proof {
                assert(Err::<(), SubscribeError>(SubscribeError::LockTimeout)
                    == spec_subscribe_tags_outcome(sub_witness, items_witness));
            }
            Err(SubscribeError::LockTimeout)
        },
        Err(ServiceError::Status(code)) => {
            proof {
                assert(Err::<(), SubscribeError>(SubscribeError::MonitoredItemsCreation(code))
                    == spec_subscribe_tags_outcome(sub_witness, items_witness));
            }
            Err(SubscribeError::MonitoredItemsCreation(code))
        },
        Ok(results) => {
            let checked = check_monitored_item_results(&results);
            proof {
                assert(checked == spec_subscribe_tags_outcome(sub_witness, items_witness));
            }
            checked
        },
    }
}

/// What binding the heartbeat subscription returns, given the two replies
/// the session gave: the single requested item must exist in the reply and
/// have been accepted.
pub open spec fn spec_subscribe_health_outcome(
    subscription_reply: Result<u32, ServiceError>,
    items_reply: Result<Vec<MonitoredItemCreateResult>, ServiceError>,
) -> Result<(), SubscribeError> {
    match subscription_reply {
        Err(ServiceError::LockTimeout) => Err(SubscribeError::LockTimeout),
        Err(ServiceError::Status(code)) => Err(SubscribeError::SubscriptionCreation(code)),
        Ok(_) => match items_reply {
            Err(ServiceError::LockTimeout) => Err(SubscribeError::LockTimeout),
            Err(ServiceError::Status(code)) => Err(SubscribeError::MonitoredItemsCreation(code)),
            Ok(results) => if results@.len() == 0 {
                Err(SubscribeError::MissingResult)
            } else if !results@[0].status_code.spec_is_good() {
                Err(SubscribeError::BadItemStatus(results@[0].status_code))
            } else {
                Ok(())
            },
        },
    }
}

/// Creates the heartbeat subscription: one monitored item on the server's
/// current-time variable, with no timestamps requested. The session's
/// replies decide the outcome as [`spec_subscribe_health_outcome`] says.
pub fn subscribe_to_health<T: SubscriptionService>(session: &T) -> (r: Result<(), SubscribeError>)
    ensures
        exists|
            subscription_reply: Result<u32, ServiceError>,
            items_reply: Result<Vec<MonitoredItemCreateResult>, ServiceError>,
        |
            r == #[trigger] spec_subscribe_health_outcome(subscription_reply, items_reply),
{
    let parameters = health_subscription_parameters();
    let subscription_reply = session.create_health_subscription(&parameters);
    let ghost sub_witness = subscription_reply;
    let subscription_id = match subscription_reply {
        Ok(subscription_id) => subscription_id,
        Err(ServiceError::LockTimeout) => {
            proof {
                let any_items = arbitrary::<Result<Vec<MonitoredItemCreateResult>, ServiceError>>();
                assert(Err::<(), SubscribeError>(SubscribeError::LockTimeout)
                    == spec_subscribe_health_outcome(sub_witness, any_items));
            }
            return Err(SubscribeError::LockTimeout);
        },
        Err(ServiceError::Status(code)) => {
            proof {
                let any_items = arbitrary::<Result<Vec<MonitoredItemCreateResult>, ServiceError>>();
                assert(Err::<(), SubscribeError>(SubscribeError::SubscriptionCreation(code))
                    == spec_subscribe_health_outcome(sub_witness, any_items));
            }
            return Err(SubscribeError::SubscriptionCreation(code));
        },
    };
    let mut items_to_create: Vec<MonitoredItemCreateRequest> = Vec::new();
    items_to_create.push(health_monitored_item());
    let items_reply = session.create_monitored_items(
        subscription_id,
        TimestampsToReturn::Neither,
        &items_to_create,
    );
    let ghost items_witness = items_reply;
    match items_reply {
        Err(ServiceError::LockTimeout) => {
            proof {
                assert(Err::<(), SubscribeError>(SubscribeError::LockTimeout)
                    == spec_subscribe_health_outcome(sub_witness, items_witness));
            }
            Err(SubscribeError::LockTimeout)
        },
        Err(ServiceError::Status(code)) => {
            proof {
                assert(Err::<(), SubscribeError>(SubscribeError::MonitoredItemsCreation(code))
                    == spec_subscribe_health_outcome(sub_witness, items_witness));
            }
            Err(SubscribeError::MonitoredItemsCreation(code))
        },
        Ok(results) => {
            if results.len() == 0 {
                proof {
                    assert(Err::<(), SubscribeError>(SubscribeError::MissingResult)
                        == spec_subscribe_health_outcome(sub_witness, items_witness));
                }
                return Err(SubscribeError::MissingResult);
            }
            if !results[0].status_code.is_good() {
                proof {
                    assert(Err::<(), SubscribeError>(SubscribeError::BadItemStatus(results@[0].status_code))
                        == spec_subscribe_health_outcome(sub_witness, items_witness));
                }
                return Err(SubscribeError::BadItemStatus(results[0].status_code));
            }
            proof {
                assert(Ok::<(), SubscribeError>(())
                    == spec_subscribe_health_outcome(sub_witness, items_witness));
            }
            Ok(())
        },
    }
}

/// One delivered monitored-item notification, reduced to what the callback
/// reads: the client handle, the value if any, and the source timestamp in
/// protocol ticks if any.
#[derive(Debug)]
pub struct MonitoredItemNotification {
    pub client_handle: u32,
    pub value: Option<Variant>,
    pub source_timestamp: Option<i64>,
}

/// One incoming change: the tag's name, its new value and its source
/// timestamp in Unix milliseconds.
#[derive(Debug)]
pub struct TagChange {
    pub tag_name: String,
    pub value: Variant,
    pub source_timestamp: i64,
}

/// The tag a client handle resolves to: handles count from one in tag
/// order, and zero or a handle past the list resolves to nothing.
pub open spec fn spec_tag_for_handle(tags: Seq<Tag>, client_handle: u32) -> Option<Tag> {
    if client_handle == 0 || client_handle > tags.len() {
        None
    } else {
        Some(tags[client_handle - 1])
    }
}

/// Resolves a client handle back to its tag: handle `h` names tag `h - 1`,
/// and zero or an out-of-range handle names none.
pub fn tag_for_handle(tags: &Vec<Tag>, client_handle: u32) -> (r: Option<&Tag>)
    ensures
        match r {
            Some(tag) => spec_tag_for_handle(tags@, client_handle) == Some(*tag),
            None => spec_tag_for_handle(tags@, client_handle) is None,
        },
{
    if client_handle == 0 {
        return None;
    }
    let index = (client_handle - 1) as usize;
    if index >= tags.len() {
        return None;
    }
    Some(&tags[index])
}

/// The positional handle binding, end to end: the monitored item created
/// for the tag at position `i` carries client handle `i + 1`, and a
/// notification with handle `h` resolves back to the tag at `h - 1`, while
/// handle zero or a handle past the list resolves to no tag at all.
pub proof fn lemma_handle_binding(tags: Seq<Tag>, i: int)
    requires
        0 <= i < tags.len(),
        tags.len() <= u32::MAX,
    ensures
        spec_tag_for_handle(tags, (i + 1) as u32) == Some(tags[i]),
        spec_tag_for_handle(tags, 0) is None,
        tags.len() < u32::MAX ==> spec_tag_for_handle(tags, (tags.len() + 1) as u32) is None,
{
}

/// The Unix milliseconds of a tick count, as an explicit 64-bit value.
pub open spec fn spec_unix_millis_i64(ticks: i64) -> i64 {
    spec_unix_millis(ticks as int) as i64
}

/// The change record one notification contributes, if any: an unknown
/// handle, a missing value or a missing timestamp drop the notification.
pub open spec fn spec_item_change(tags: Seq<Tag>, item: MonitoredItemNotification) -> Option<
    TagChange,
> {
    match spec_tag_for_handle(tags, item.client_handle) {
        None => None,
        Some(tag) => match item.value {
            None => None,
            Some(value) => match item.source_timestamp {
                None => None,
                Some(ticks) => Some(
                    TagChange {
                        tag_name: tag.name,
                        value,
                        source_timestamp: spec_unix_millis_i64(ticks),
                    },
                ),
            },
        },
    }
}

/// The change records a notification batch contributes, in delivery order.
pub open spec fn spec_tag_changes(tags: Seq<Tag>, items: Seq<MonitoredItemNotification>) -> Seq<
    TagChange,
>
    decreases items,
{
    if items.len() == 0 {
        Seq::empty()
    } else {
        spec_tag_changes(tags, items.drop_last()) + match spec_item_change(tags, items.last()) {
            Some(change) => seq![change],
            None => Seq::empty(),
        }
    }
}

/// Turning one more notification into a change appends that notification's
/// contribution.
proof fn lemma_tag_changes_take_step(
    tags: Seq<Tag>,
    items: Seq<MonitoredItemNotification>,
    k: int,
)
    requires
        0 <= k < items.len(),
    ensures
        spec_tag_changes(tags, items.take(k + 1)) == spec_tag_changes(tags, items.take(k)) + match
            spec_item_change(tags, items[k]) {
            Some(change) => seq![change],
            None => Seq::<TagChange>::empty(),
        },
{
    assert(items.take(k + 1).drop_last() =~= items.take(k));
    assert(items.take(k + 1).last() == items[k]);
}

/// Demultiplexes a notification batch into change records: each handle is
/// resolved through the positional binding, and a notification with an
/// unknown handle, no value or no source timestamp is dropped while the
/// rest of the batch proceeds.
#[verifier::loop_isolation(false)]
pub fn tag_changes(tag_set: &TagSet, items: Vec<MonitoredItemNotification>) -> (r: Vec<TagChange>)
    ensures
        r@ == spec_tag_changes(tag_set.0@, items@),
{
    let ghost orig_items = items@;
    let mut items = items;
    let total = items.len();
    proof {
        assert(orig_items.len() == total);
    }
    let mut changes: Vec<TagChange> = Vec::new();
    let mut k: usize = 0;
    while items.len() > 0
        invariant
            k <= orig_items.len(),
            orig_items.len() <= usize::MAX,
            items@.len() == orig_items.len() - k,
            items@ == orig_items.subrange(k as int, orig_items.len() as int),
            changes@ == spec_tag_changes(tag_set.0@, orig_items.take(k as int)),
        decreases items@.len(),
    {
        proof {
            assert(orig_items.subrange(k as int, orig_items.len() as int)[0] == orig_items[k as int]);
            lemma_tag_changes_take_step(tag_set.0@, orig_items, k as int);
        }
        let item = items.remove(0);
        proof {
            assert(items@ =~= orig_items.subrange(k as int + 1, orig_items.len() as int));
        }
        let change = match tag_for_handle(&tag_set.0, item.client_handle) {
            Some(tag) => match item.value {
                Some(value) => match item.source_timestamp {
                    Some(ticks) => Some(
                        TagChange {
                            tag_name: tag.name.clone(),
                            value,
                            source_timestamp: unix_millis_from_ticks(ticks),
                        },
                    ),
                    None => None,
                },
                None => None,
            },
            None => None,
        };
        if let Some(change) = change {
            changes.push(change);
        }
        k += 1;
    }
    proof {
        assert(orig_items.take(orig_items.len() as int) =~= orig_items);
    }
    changes
}

/// Builds the outgoing batch for a partner from a notification batch: the
/// surviving changes in delivery order, or nothing when every notification
/// was dropped, so that no empty batch is forwarded.
pub fn data_change_message(
    partner_id: &str,
    tag_set: &TagSet,
    items: Vec<MonitoredItemNotification>,
) -> (r: Option<DataChangeMessage>)
    ensures
        spec_tag_changes(tag_set.0@, items@).len() == 0 <==> r is None,
        r matches Some(message) ==> message.partner_id@ == partner_id@ && message.changes@
            == spec_tag_changes(tag_set.0@, items@),
{
    let changes = tag_changes(tag_set, items);
    if changes.len() == 0 {
        return None;
    }
    Some(DataChangeMessage { partner_id: String::from_str(partner_id), changes })
}

/// The server timestamp a heartbeat notification batch carries, if its
/// first notification holds a time value: in Unix milliseconds.
pub open spec fn spec_health_timestamp(items: Seq<MonitoredItemNotification>) -> Option<i64> {
    if items.len() == 0 {
        None
    } else {
        match items[0].value {
            Some(Variant::DateTime(ticks)) => Some(spec_unix_millis_i64(ticks)),
            _ => None,
        }
    }
}

/// Builds the health update for a heartbeat notification batch: the server
/// time of the first notification, or nothing when the batch carries none.
pub fn health_message(partner_id: &str, items: &Vec<MonitoredItemNotification>) -> (r: Option<
    HealthMessage,
>)
    ensures
        r is Some <==> spec_health_timestamp(items@) is Some,
        r matches Some(message) ==> message.partner_id@ == partner_id@ && message.command
            == HealthCommand::Update(spec_health_timestamp(items@)->0),
{
    if items.len() == 0 {
        return None;
    }
    match &items[0].value {
        Some(Variant::DateTime(ticks)) => {
            let server_timestamp = unix_millis_from_ticks(*ticks);
            Some(
                HealthMessage {
                    partner_id: String::from_str(partner_id),
                    command: HealthCommand::Update(server_timestamp),
                },
            )
        },
        _ => None,
    }
}

} // verus!
