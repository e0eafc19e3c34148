//! Multi-tenant gateway core: keeps a set of live industrial-protocol sessions
//! in sync with a remotely fetched desired configuration, resolves tag
//! addresses, demultiplexes change notifications, and encodes protocol values
//! into storage documents.

use vstd::prelude::*;

pub mod datetime;
pub mod db;
pub mod namespaces;
pub mod node_identifier;
pub mod session;
pub mod session_manager;
pub mod status;
pub mod subscription;
pub mod tag_set;
pub mod variant;

verus! {

/// Connection settings shared by the binaries that talk to the storage
/// backend.
pub struct CommonArgs {
    /// URL of the storage server.
    pub mongodb_uri: String,
    /// Name of the database to use.
    pub mongodb_database: String,
}

/// Name of the storage collection holding tag data documents.
pub fn data_collection_name() -> (r: String)
    ensures
        r@ == "data"@,
{
    let r = String::from_str("data");
    r
}

/// Name of the storage collection holding health documents.
pub fn health_collection_name() -> (r: String)
    ensures
        r@ == "health"@,
{
    let r = String::from_str("health");
    r
}

/// Publishing interval of the health subscription, in milliseconds.
pub const OPCUA_HEALTH_INTERVAL: u16 = 5000;

} // verus!

