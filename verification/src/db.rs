//! Messages bound for the storage layer, and the document updates they turn
//! into. The writer tasks themselves live outside the library; what they
//! must write is computed and pinned down here.

use crate::subscription::TagChange;
use crate::variant::{encode, encode_spec, StorageValue};
use vstd::prelude::*;

verus! {

/// Capacity of the bounded channels feeding the storage writer tasks.
pub const MESSAGE_QUEUE_CAPACITY: usize = 20;

/// A batch of tag changes for one partner. An empty batch is only ever sent
/// once per session start, to materialize the partner's document.
#[derive(Debug)]
pub struct DataChangeMessage {
    pub partner_id: String,
    pub changes: Vec<TagChange>,
}

/// What the health writer should do for one partner.
#[derive(Clone, Copy, Debug, PartialEq, Eq, Structural)]
pub enum HealthCommand {
    /// Record this server timestamp, in Unix milliseconds.
    Update(i64),
    /// Remove the partner's health record.
    Remove,
}

/// One health bookkeeping message.
#[derive(Debug)]
pub struct HealthMessage {
    pub partner_id: String,
    pub command: HealthCommand,
}

/// Value of one updated document field.
#[derive(Debug)]
pub enum FieldValue {
    /// An encoded tag value.
    Value(StorageValue),
    /// A source timestamp, in Unix milliseconds.
    Timestamp(i64),
}

/// What the freshness marker of a data document is set to.
#[derive(Clone, Copy, Debug, PartialEq, Eq, Structural)]
pub enum UpdatedAtValue {
    /// The database server's clock at update time.
    Now,
    /// The fixed sentinel written for the empty initialization batch: one
    /// second before the Unix epoch.
    SecondBeforeEpoch,
}

/// The document update one data-change batch turns into: an upsert keyed by
/// the partner, setting a freshness marker and two fields per change.
#[derive(Debug)]
pub struct DataChangeUpdate {
    pub partner_id: String,
    pub updated_at: UpdatedAtValue,
    pub fields: Vec<(String, FieldValue)>,
}

/// Key of a tag's value field.
pub open spec fn spec_value_key(tag_name: Seq<char>) -> Seq<char> {
    "val."@ + tag_name
}

/// Key of a tag's timestamp field.
pub open spec fn spec_timestamp_key(tag_name: Seq<char>) -> Seq<char> {
    "ts."@ + tag_name
}

/// Builds the document update for one data-change batch: for each change, in
/// batch order, the encoded value under the value key and the timestamp
/// under the timestamp key; an empty batch only touches the freshness
/// marker, with the sentinel value.
pub fn build_data_change_update(message: &DataChangeMessage) -> (r: DataChangeUpdate)
    ensures
        r.partner_id == message.partner_id,
        r.updated_at == if message.changes@.len() == 0 {
            UpdatedAtValue::SecondBeforeEpoch
        } else {
            UpdatedAtValue::Now
        },
        r.fields@.len() == 2 * message.changes@.len(),
        forall|i: int|
            0 <= i < message.changes@.len() ==> {
                &&& (#[trigger] r.fields@[2 * i]).0@ == spec_value_key(
                    message.changes@[i].tag_name@,
                )
                &&& r.fields@[2 * i].1 matches FieldValue::Value(v) && v@ == encode_spec(
                    message.changes@[i].value@,
                )
                &&& (#[trigger] r.fields@[2 * i + 1]).0@ == spec_timestamp_key(
                    message.changes@[i].tag_name@,
                )
                &&& r.fields@[2 * i + 1].1 == FieldValue::Timestamp(
                    message.changes@[i].source_timestamp,
                )
            },
{
    let mut fields: Vec<(String, FieldValue)> = Vec::new();
    let mut i: usize = 0;
    while i < message.changes.len()
        invariant
            i <= message.changes@.len(),
            fields@.len() == 2 * i,
            forall|j: int|
                0 <= j < i ==> {
                    &&& (#[trigger] fields@[2 * j]).0@ == spec_value_key(
                        message.changes@[j].tag_name@,
                    )
                    &&& fields@[2 * j].1 matches FieldValue::Value(v) && v@ == encode_spec(
                        message.changes@[j].value@,
                    )
                    &&& (#[trigger] fields@[2 * j + 1]).0@ == spec_timestamp_key(
                        message.changes@[j].tag_name@,
                    )
                    &&& fields@[2 * j + 1].1 == FieldValue::Timestamp(
                        message.changes@[j].source_timestamp,
                    )
                },
        decreases message.changes@.len() - i,
    {
        let change = &message.changes[i];
        let mut value_key = String::from_str("val.");
        value_key.append(change.tag_name.as_str());
        let encoded = encode(&change.value);
        fields.push((value_key, FieldValue::Value(encoded)));
        let mut timestamp_key = String::from_str("ts.");
        timestamp_key.append(change.tag_name.as_str());
        fields.push((timestamp_key, FieldValue::Timestamp(change.source_timestamp)));
        i += 1;
    }
    let updated_at = if message.changes.len() == 0 {
        UpdatedAtValue::SecondBeforeEpoch
    } else {
        UpdatedAtValue::Now
    };
    DataChangeUpdate { partner_id: message.partner_id.clone(), updated_at, fields }
}

/// The document action one health message turns into.
#[derive(Debug)]
pub enum HealthDbAction {
    /// Upsert the partner's record: set its server timestamp and touch its
    /// freshness marker.
    Upsert { partner_id: String, server_timestamp: i64 },
    /// Delete the partner's record.
    Delete { partner_id: String },
}

/// Builds the document action for one health message: an update command
/// upserts the carried server timestamp, a removal deletes the record.
pub fn build_health_action(message: &HealthMessage) -> (r: HealthDbAction)
    ensures
        r == match message.command {
            HealthCommand::Update(server_timestamp) => (HealthDbAction::Upsert {
                partner_id: message.partner_id,
                server_timestamp,
            }),
            HealthCommand::Remove => (HealthDbAction::Delete { partner_id: message.partner_id }),
        },
{
    match message.command {
        HealthCommand::Update(server_timestamp) => HealthDbAction::Upsert {
            partner_id: message.partner_id.clone(),
            server_timestamp,
        },
        HealthCommand::Remove => HealthDbAction::Delete {
            partner_id: message.partner_id.clone(),
        },
    }
}

} // verus!
