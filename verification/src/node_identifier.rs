//! Node addresses: a (namespace index, identifier) pair locating one item in
//! the protocol's hierarchical address space.

use vstd::prelude::*;

verus! {

/// Identifier part of a node address as it appears in fetched configuration:
/// either numeric or textual.
#[derive(Debug, PartialEq, Eq)]
pub enum NodeIdentifier {
    Numeric(u32),
    String(String),
}

impl NodeIdentifier {
    /// Copies the identifier.
    pub fn clone(&self) -> (r: NodeIdentifier)
        ensures
            r == *self,
    {
        match self {
            NodeIdentifier::Numeric(n) => NodeIdentifier::Numeric(*n),
            NodeIdentifier::String(s) => NodeIdentifier::String(s.clone()),
        }
    }
}

/// Identifier part of a full protocol node address. Browse replies can carry
/// identifier kinds that the configuration cannot express; those are held as
/// plain values: an opaque byte-sequence identifier as the text its bytes are
/// rendered to at the boundary, rendered back when the address is used.
#[derive(Debug, PartialEq, Eq)]
pub enum Identifier {
    Numeric(u32),
    String(String),
    Guid([u8; 16]),
    Opaque(String),
}

impl Identifier {
    /// Copies the identifier.
    pub fn clone(&self) -> (r: Identifier)
        ensures
            r == *self,
    {
        match self {
            Identifier::Numeric(n) => Identifier::Numeric(*n),
            Identifier::String(s) => Identifier::String(s.clone()),
            Identifier::Guid(g) => Identifier::Guid(*g),
            Identifier::Opaque(b) => Identifier::Opaque(b.clone()),
        }
    }
}

/// The protocol-level identifier corresponding to a configuration-level one.
pub open spec fn spec_identifier_of(identifier: NodeIdentifier) -> Identifier {
    match identifier {
        NodeIdentifier::Numeric(n) => Identifier::Numeric(n),
        NodeIdentifier::String(s) => Identifier::String(s),
    }
}

impl From<NodeIdentifier> for Identifier {
    /// A configuration-level identifier maps to the protocol-level identifier
    /// of the same kind.
    fn from(identifier: NodeIdentifier) -> (r: Identifier) {
        match identifier {
            NodeIdentifier::Numeric(n) => Identifier::Numeric(n),
            NodeIdentifier::String(s) => Identifier::String(s),
        }
    }
}

impl vstd::std_specs::convert::FromSpecImpl<NodeIdentifier> for Identifier {
    open spec fn obeys_from_spec() -> bool {
        true
    }

    open spec fn from_spec(t: NodeIdentifier) -> Identifier {
        spec_identifier_of(t)
    }
}

/// A full node address.
#[derive(Debug, PartialEq, Eq)]
pub struct NodeId {
    pub namespace: u16,
    pub identifier: Identifier,
}

impl NodeId {
    /// Builds a node address from a namespace index and a configuration-level
    /// identifier.
    pub fn new(namespace: u16, identifier: NodeIdentifier) -> (r: NodeId)
        ensures
            r == (NodeId { namespace, identifier: spec_identifier_of(identifier) }),
    {
        let id = match identifier {
            NodeIdentifier::Numeric(n) => Identifier::Numeric(n),
            NodeIdentifier::String(s) => Identifier::String(s),
        };
        NodeId { namespace, identifier: id }
    }

    /// Copies the address.
    pub fn clone(&self) -> (r: NodeId)
        ensures
            r == *self,
    {
        NodeId { namespace: self.namespace, identifier: self.identifier.clone() }
    }
}

} // verus!
