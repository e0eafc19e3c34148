//! Per-partner session material: the fetched partner configuration, the
//! equality that reconciliation compares it by, and the connection request
//! computed from it.

use crate::tag_set::TagsConfigGroup;
use vstd::prelude::*;

verus! {

/// How long a cross-task borrow of a live session may wait, in milliseconds.
pub const SESSION_LOCK_TIMEOUT_MILLIS: u64 = 50;

/// One partner's fetched configuration. Value-equal configurations are the
/// same desired session; any field change means tear down and rebuild.
#[derive(Debug, PartialEq, Eq)]
pub struct PartnerConfig {
    pub partner_id: String,
    pub server_url: String,
    pub security_policy: String,
    pub security_mode: String,
    pub user: Option<String>,
    pub password: Option<String>,
    pub tags: Vec<TagsConfigGroup>,
}

/// Whether two optional strings hold the same text.
pub open spec fn spec_opt_string_eq(a: Option<String>, b: Option<String>) -> bool {
    match (a, b) {
        (None, None) => true,
        (Some(a), Some(b)) => a@ == b@,
        _ => false,
    }
}

/// Whether two configuration entries say the same thing.
pub open spec fn spec_group_eq(a: TagsConfigGroup, b: TagsConfigGroup) -> bool {
    match (a, b) {
        (
            TagsConfigGroup::Container { namespace_uri: ua, node_identifier: ia },
            TagsConfigGroup::Container { namespace_uri: ub, node_identifier: ib },
        ) => ua@ == ub@ && spec_node_identifier_eq(ia, ib),
        (
            TagsConfigGroup::Tag { name: na, namespace_uri: ua, node_identifier: ia },
            TagsConfigGroup::Tag { name: nb, namespace_uri: ub, node_identifier: ib },
        ) => na@ == nb@ && ua@ == ub@ && spec_node_identifier_eq(ia, ib),
        _ => false,
    }
}

/// Whether two configuration-level identifiers say the same thing.
pub open spec fn spec_node_identifier_eq(
    a: crate::node_identifier::NodeIdentifier,
    b: crate::node_identifier::NodeIdentifier,
) -> bool {
    match (a, b) {
        (
            crate::node_identifier::NodeIdentifier::Numeric(x),
            crate::node_identifier::NodeIdentifier::Numeric(y),
        ) => x == y,
        (
            crate::node_identifier::NodeIdentifier::String(x),
            crate::node_identifier::NodeIdentifier::String(y),
        ) => x@ == y@,
        _ => false,
    }
}

/// Whether two partner configurations say the same thing, field for field.
/// This is the equality reconciliation goes by: nothing is patched in place.
pub open spec fn spec_config_eq(a: PartnerConfig, b: PartnerConfig) -> bool {
    &&& a.partner_id@ == b.partner_id@
    &&& a.server_url@ == b.server_url@
    &&& a.security_policy@ == b.security_policy@
    &&& a.security_mode@ == b.security_mode@
    &&& spec_opt_string_eq(a.user, b.user)
    &&& spec_opt_string_eq(a.password, b.password)
    &&& a.tags@.len() == b.tags@.len()
    &&& forall|i: int|
        0 <= i < a.tags@.len() ==> spec_group_eq(#[trigger] a.tags@[i], #[trigger] b.tags@[i])
}

/// Every configuration says the same thing as itself.
pub proof fn lemma_config_eq_reflexive(a: PartnerConfig)
    ensures
        spec_config_eq(a, a),
{
    assert forall|i: int| 0 <= i < a.tags@.len() implies spec_group_eq(
        #[trigger] a.tags@[i],
        #[trigger] a.tags@[i],
    ) by {
        match a.tags@[i] {
            TagsConfigGroup::Container { .. } => {},
            TagsConfigGroup::Tag { .. } => {},
        }
    }
}

/// Saying the same thing is symmetric.
pub proof fn lemma_config_eq_symmetric(a: PartnerConfig, b: PartnerConfig)
    requires
        spec_config_eq(a, b),
    ensures
        spec_config_eq(b, a),
{
    assert forall|i: int| 0 <= i < b.tags@.len() implies spec_group_eq(
        #[trigger] b.tags@[i],
        #[trigger] a.tags@[i],
    ) by {
        assert(spec_group_eq(a.tags@[i], b.tags@[i]));
        match (a.tags@[i], b.tags@[i]) {
            (TagsConfigGroup::Container { .. }, TagsConfigGroup::Container { .. }) => {},
            (TagsConfigGroup::Tag { .. }, TagsConfigGroup::Tag { .. }) => {},
            _ => {},
        }
    }
}

/// Saying the same thing is transitive.
pub proof fn lemma_config_eq_transitive(a: PartnerConfig, b: PartnerConfig, c: PartnerConfig)
    requires
        spec_config_eq(a, b),
        spec_config_eq(b, c),
    ensures
        spec_config_eq(a, c),
{
    assert forall|i: int| 0 <= i < a.tags@.len() implies spec_group_eq(
        #[trigger] a.tags@[i],
        #[trigger] c.tags@[i],
    ) by {
        assert(spec_group_eq(a.tags@[i], b.tags@[i]));
        assert(spec_group_eq(b.tags@[i], c.tags@[i]));
        match (a.tags@[i], b.tags@[i], c.tags@[i]) {
            (
                TagsConfigGroup::Container { .. },
                TagsConfigGroup::Container { .. },
                TagsConfigGroup::Container { .. },
            ) => {},
            (
                TagsConfigGroup::Tag { .. },
                TagsConfigGroup::Tag { .. },
                TagsConfigGroup::Tag { .. },
            ) => {},
            _ => {},
        }
    }
}

/// Decides whether two optional strings hold the same text.
fn opt_string_eq(a: &Option<String>, b: &Option<String>) -> (r: bool)
    ensures
        r == spec_opt_string_eq(*a, *b),
{
    match (a, b) {
        (None, None) => true,
        (Some(a), Some(b)) => *a == *b,
        _ => false,
    }
}

/// Decides whether two configuration entries say the same thing.
fn group_eq(a: &TagsConfigGroup, b: &TagsConfigGroup) -> (r: bool)
    ensures
        r == spec_group_eq(*a, *b),
{
    match (a, b) {
        (
            TagsConfigGroup::Container { namespace_uri: ua, node_identifier: ia },
            TagsConfigGroup::Container { namespace_uri: ub, node_identifier: ib },
        ) => *ua == *ub && node_identifier_eq(ia, ib),
        (
            TagsConfigGroup::Tag { name: na, namespace_uri: ua, node_identifier: ia },
            TagsConfigGroup::Tag { name: nb, namespace_uri: ub, node_identifier: ib },
        ) => *na == *nb && *ua == *ub && node_identifier_eq(ia, ib),
        _ => false,
    }
}

/// Decides whether two configuration-level identifiers say the same thing.
fn node_identifier_eq(
    a: &crate::node_identifier::NodeIdentifier,
    b: &crate::node_identifier::NodeIdentifier,
) -> (r: bool)
    ensures
        r == spec_node_identifier_eq(*a, *b),
{
    match (a, b) {
        (
            crate::node_identifier::NodeIdentifier::Numeric(x),
            crate::node_identifier::NodeIdentifier::Numeric(y),
        ) => x == y,
        (
            crate::node_identifier::NodeIdentifier::String(x),
            crate::node_identifier::NodeIdentifier::String(y),
        ) => *x == *y,
        _ => false,
    }
}

/// Decides whether two partner configurations say the same thing.
pub fn config_eq(a: &PartnerConfig, b: &PartnerConfig) -> (r: bool)
    ensures
        r == spec_config_eq(*a, *b),
{
    if !(a.partner_id == b.partner_id && a.server_url == b.server_url && a.security_policy
        == b.security_policy && a.security_mode == b.security_mode) {
        return false;
    }
    if !opt_string_eq(&a.user, &b.user) {
        return false;
    }
    if !opt_string_eq(&a.password, &b.password) {
        return false;
    }
    if a.tags.len() != b.tags.len() {
        return false;
    }
    let mut i: usize = 0;
    while i < a.tags.len()
        invariant
            i <= a.tags@.len(),
            a.tags@.len() == b.tags@.len(),
            forall|j: int|
                0 <= j < i ==> spec_group_eq(#[trigger] a.tags@[j], #[trigger] b.tags@[j]),
        decreases a.tags@.len() - i,
    {
        if !group_eq(&a.tags[i], &b.tags[i]) {
            return false;
        }
        i += 1;
    }
    true
}

impl PartnerConfig {
    /// Copies the configuration; the copy says the same thing.
    pub fn clone(&self) -> (r: PartnerConfig)
        ensures
            spec_config_eq(r, *self),
            r.partner_id@ == self.partner_id@,
    {
        let mut tags: Vec<TagsConfigGroup> = Vec::new();
        let mut i: usize = 0;
        while i < self.tags.len()
            invariant
                i <= self.tags@.len(),
                tags@.len() == i,
                forall|j: int| 0 <= j < i ==> #[trigger] tags@[j] == self.tags@[j],
            decreases self.tags@.len() - i,
        {
            tags.push(self.tags[i].clone());
            i += 1;
        }
        let r = PartnerConfig {
            partner_id: self.partner_id.clone(),
            server_url: self.server_url.clone(),
            security_policy: self.security_policy.clone(),
            security_mode: self.security_mode.clone(),
            user: match &self.user {
                Some(u) => Some(u.clone()),
                None => None,
            },
            password: match &self.password {
                Some(p) => Some(p.clone()),
                None => None,
            },
            tags,
        };
        proof {
            lemma_config_eq_reflexive(*self);
            assert forall|j: int| 0 <= j < r.tags@.len() implies spec_group_eq(
                #[trigger] r.tags@[j],
                #[trigger] self.tags@[j],
            ) by {
                assert(r.tags@[j] == self.tags@[j]);
            }
        }
        r
    }
}

/// Identity presented when establishing a session.
#[derive(Debug, PartialEq, Eq)]
pub enum IdentityToken {
    Anonymous,
    UserName(String, String),
}

/// The endpoint a session connects to.
#[derive(Debug, PartialEq, Eq)]
pub struct SessionEndpoint {
    pub url: String,
    pub security_policy: String,
    pub security_mode: String,
}

/// Everything needed to establish one partner's session.
#[derive(Debug, PartialEq, Eq)]
pub struct ConnectionRequest {
    pub endpoint: SessionEndpoint,
    pub identity: IdentityToken,
}

/// Computes the connection request for a partner: its endpoint as
/// configured, and a username identity exactly when both a user and a
/// password are configured, anonymous otherwise.
pub fn create_session(config: &PartnerConfig) -> (r: ConnectionRequest)
    ensures
        r.endpoint.url == config.server_url,
        r.endpoint.security_policy == config.security_policy,
        r.endpoint.security_mode == config.security_mode,
        match (config.user, config.password) {
            (Some(user), Some(password)) => r.identity == IdentityToken::UserName(user, password),
            _ => r.identity == IdentityToken::Anonymous,
        },
{
    let identity = match (&config.user, &config.password) {
        (Some(user), Some(password)) => IdentityToken::UserName(user.clone(), password.clone()),
        _ => IdentityToken::Anonymous,
    };
    ConnectionRequest {
        endpoint: SessionEndpoint {
            url: config.server_url.clone(),
            security_policy: config.security_policy.clone(),
            security_mode: config.security_mode.clone(),
        },
        identity,
    }
}

} // verus!
