//! Tag resolution: turns configuration groups into the flat, order-stable
//! list of named node addresses that a session subscribes to. A direct tag
//! entry is resolved against the namespace map alone; a container entry is
//! expanded by browsing the server's address space.

use crate::namespaces::Namespaces;
use crate::node_identifier::{spec_identifier_of, Identifier, NodeId, NodeIdentifier};
use crate::status::{ServiceError, StatusCode};
use vstd::prelude::*;

verus! {

/// Reference kind for components of a node.
pub const REFERENCE_TYPE_HAS_COMPONENT: u32 = 47;

/// Reference kind for organizational membership.
pub const REFERENCE_TYPE_ORGANIZES: u32 = 35;

/// Root of the hierarchical reference kinds.
pub const REFERENCE_TYPE_HIERARCHICAL: u32 = 33;

/// Node-class bit selecting variable nodes in a browse request.
pub const NODE_CLASS_MASK_VARIABLE: u32 = 2;

/// Result-mask bit asking for display names in browse replies.
pub const RESULT_MASK_DISPLAY_NAME: u32 = 16;

/// Result-mask bit asking for reference kinds in browse replies.
pub const RESULT_MASK_REFERENCE_TYPE: u32 = 1;

/// One entry of a partner's fetched tag configuration: a directly named tag,
/// or a container to be expanded by browsing.
#[derive(Debug, PartialEq, Eq)]
pub enum TagsConfigGroup {
    Container { namespace_uri: String, node_identifier: NodeIdentifier },
    Tag { name: String, namespace_uri: String, node_identifier: NodeIdentifier },
}

impl TagsConfigGroup {
    /// Copies the entry.
    pub fn clone(&self) -> (r: TagsConfigGroup)
        ensures
            r == *self,
    {
        match self {
            TagsConfigGroup::Container { namespace_uri, node_identifier } => {
                TagsConfigGroup::Container {
                    namespace_uri: namespace_uri.clone(),
                    node_identifier: node_identifier.clone(),
                }
            },
            TagsConfigGroup::Tag { name, namespace_uri, node_identifier } => {
                TagsConfigGroup::Tag {
                    name: name.clone(),
                    namespace_uri: namespace_uri.clone(),
                    node_identifier: node_identifier.clone(),
                }
            },
        }
    }
}

/// A named, resolved node address.
#[derive(Debug, PartialEq, Eq)]
pub struct Tag {
    pub name: String,
    pub node_id: NodeId,
}

impl Tag {
    /// Copies the tag.
    pub fn clone(&self) -> (r: Tag)
        ensures
            r == *self,
    {
        Tag { name: self.name.clone(), node_id: self.node_id.clone() }
    }
}

/// Direction of a browse request.
#[derive(Clone, Copy, Debug, PartialEq, Eq, Structural)]
pub enum BrowseDirection {
    Forward,
    Inverse,
    Both,
}

/// One browse request: which node to expand and which references to return.
#[derive(Debug)]
pub struct BrowseDescription {
    pub node_id: NodeId,
    pub browse_direction: BrowseDirection,
    pub reference_type_id: NodeId,
    pub include_subtypes: bool,
    pub node_class_mask: u32,
    pub result_mask: u32,
}

/// One reference delivered by a browse reply, reduced to what resolution
/// reads: the kind of the reference, the target node and its display name.
#[derive(Debug)]
pub struct ReferenceDescription {
    pub reference_type_id: NodeId,
    pub node_id: NodeId,
    pub display_name: String,
}

/// One browse reply: its status, the continuation point if the result set
/// was paginated, and the references found.
#[derive(Debug)]
pub struct BrowseResult {
    pub status_code: StatusCode,
    pub continuation_point: Option<Vec<u8>>,
    pub references: Option<Vec<ReferenceDescription>>,
}

/// The part of a session that can browse the address space. The live
/// protocol session implements it outside the library; tests implement it
/// with canned replies.
pub trait ViewService {
    /// Browses the address space as the description asks, waiting at most
    /// the configured timeout for session access.
    fn browse(&self, description: &BrowseDescription) -> Result<
        Option<Vec<BrowseResult>>,
        ServiceError,
    >;
}

/// Why tag resolution failed.
#[derive(Debug, PartialEq, Eq)]
pub enum TagSetError {
    /// A group named this namespace URI, which the server does not expose.
    NamespaceNotFound(String),
    /// The session lock was not acquired in time.
    LockTimeout,
    /// The browse call itself failed with this status.
    Browse(StatusCode),
    /// The browse reply carried no result collection at all.
    MissingBrowseResponse,
    /// The browse reply's result collection was empty.
    EmptyBrowseResults,
    /// The browse result reported this non-good status.
    BrowseResultStatus(StatusCode),
    /// The browse result was paginated; handling continuation points is
    /// unimplemented, so resolution fails rather than silently truncating.
    ContinuationPoint,
    /// The browse result carried no references.
    MissingReferences,
    /// This tag name was asked for but is not in the resolved set.
    TagNotFound(String),
}

/// Whether an expanded container keeps this reference: only component and
/// organizational references in the default namespace qualify.
pub open spec fn spec_allowed_reference(r: ReferenceDescription) -> bool {
    &&& r.reference_type_id.namespace == 0
    &&& r.reference_type_id.identifier matches Identifier::Numeric(n) && (n
        == REFERENCE_TYPE_ORGANIZES || n == REFERENCE_TYPE_HAS_COMPONENT)
}

/// The tag a kept reference contributes: its display name and its node.
pub open spec fn spec_reference_tag(r: ReferenceDescription) -> Tag {
    Tag { name: r.display_name, node_id: r.node_id }
}

/// Tags contributed by a reference list, in reply order; with `restrict`,
/// only allowed reference kinds contribute.
pub open spec fn spec_reference_tags(refs: Seq<ReferenceDescription>, restrict: bool) -> Seq<Tag>
    decreases refs,
{
    if refs.len() == 0 {
        Seq::empty()
    } else {
        spec_reference_tags(refs.drop_last(), restrict) + if !restrict || spec_allowed_reference(
            refs.last(),
        ) {
            seq![spec_reference_tag(refs.last())]
        } else {
            Seq::empty()
        }
    }
}

/// What expanding one container returns for each possible browse reply: the
/// reply's last result is taken; a call error, a missing or empty result
/// set, a non-good status, a continuation point or missing references fault,
/// and otherwise each surviving reference contributes one tag.
pub open spec fn spec_container_tags(
    reply: Result<Option<Vec<BrowseResult>>, ServiceError>,
    restrict: bool,
) -> Result<Seq<Tag>, TagSetError> {
    match reply {
        Err(ServiceError::LockTimeout) => Err(TagSetError::LockTimeout),
        Err(ServiceError::Status(code)) => Err(TagSetError::Browse(code)),
        Ok(None) => Err(TagSetError::MissingBrowseResponse),
        Ok(Some(results)) => if results@.len() == 0 {
            Err(TagSetError::EmptyBrowseResults)
        } else if !results@.last().status_code.spec_is_good() {
            Err(TagSetError::BrowseResultStatus(results@.last().status_code))
        } else if results@.last().continuation_point is Some {
            Err(TagSetError::ContinuationPoint)
        } else {
            match results@.last().references {
                None => Err(TagSetError::MissingReferences),
                Some(refs) => Ok(spec_reference_tags(refs@, restrict)),
            }
        },
    }
}

/// A browse result whose (good) reply carries a continuation point makes
/// resolution fail: pagination is unimplemented and must not silently drop
/// later pages.
pub proof fn lemma_continuation_point_faults(results: Vec<BrowseResult>, restrict: bool)
    requires
        results@.len() > 0,
        results@.last().continuation_point is Some,
        results@.last().status_code.spec_is_good(),
    ensures
        spec_container_tags(Ok(Some(results)), restrict) == Err::<Seq<Tag>, TagSetError>(
            TagSetError::ContinuationPoint,
        ),
{
}

/// Decides whether an expanded container keeps this reference.
fn is_allowed_reference(r: &ReferenceDescription) -> (b: bool)
    ensures
        b == spec_allowed_reference(*r),
{
    r.reference_type_id.namespace == 0 && match &r.reference_type_id.identifier {
        Identifier::Numeric(n) => *n == REFERENCE_TYPE_ORGANIZES || *n
            == REFERENCE_TYPE_HAS_COMPONENT,
        _ => false,
    }
}

/// Result of turning a tag vector into its sequence of values.
pub open spec fn tags_result_view(r: Result<Vec<Tag>, TagSetError>) -> Result<
    Seq<Tag>,
    TagSetError,
> {
    match r {
        Ok(tags) => Ok(tags@),
        Err(e) => Err(e),
    }
}

/// Turns one browse reply into the tags it contributes, exactly as
/// [`spec_container_tags`] describes.
#[verifier::loop_isolation(false)]
pub fn container_tags(reply: Result<Option<Vec<BrowseResult>>, ServiceError>, restrict: bool) -> (r:
    Result<Vec<Tag>, TagSetError>)
    ensures
        tags_result_view(r) == spec_container_tags(reply, restrict),
{
    match reply {
        Err(ServiceError::LockTimeout) => Err(TagSetError::LockTimeout),
        Err(ServiceError::Status(code)) => Err(TagSetError::Browse(code)),
        Ok(None) => Err(TagSetError::MissingBrowseResponse),
        Ok(Some(mut results)) => {
            match results.pop() {
                None => Err(TagSetError::EmptyBrowseResults),
                Some(browse_result) => {
                    if !browse_result.status_code.is_good() {
                        return Err(TagSetError::BrowseResultStatus(browse_result.status_code));
                    }
                    if let Some(_) = &browse_result.continuation_point {
                        return Err(TagSetError::ContinuationPoint);
                    }
                    match browse_result.references {
                        None => Err(TagSetError::MissingReferences),
                        Some(refs) => {
                            let mut tags: Vec<Tag> = Vec::new();
                            let mut i: usize = 0;
                            while i < refs.len()
                                invariant
                                    i <= refs@.len(),
                                    tags@ == spec_reference_tags(refs@.take(i as int), restrict),
                                decreases refs@.len() - i,
                            {
                                proof {
                                    lemma_reference_tags_take_step(refs@, restrict, i as int);
                                }
                                let keep = if restrict {
                                    is_allowed_reference(&refs[i])
                                } else {
                                    true
                                };
                                if keep {
                                    tags.push(
                                        Tag {
                                            name: refs[i].display_name.clone(),
                                            node_id: refs[i].node_id.clone(),
                                        },
                                    );
                                }
                                i += 1;
                            }
                            proof {
                                assert(refs@.take(refs@.len() as int) =~= refs@);
                            }
                            Ok(tags)
                        },
                    }
                },
            }
        },
    }
}

/// Taking one more reference adds that reference's tag, if it is kept.
proof fn lemma_reference_tags_take_step(refs: Seq<ReferenceDescription>, restrict: bool, k: int)
    requires
        0 <= k < refs.len(),
    ensures
        spec_reference_tags(refs.take(k + 1), restrict) == spec_reference_tags(
            refs.take(k),
            restrict,
        ) + if !restrict || spec_allowed_reference(refs[k]) {
            seq![spec_reference_tag(refs[k])]
        } else {
            Seq::<Tag>::empty()
        },
{
    assert(refs.take(k + 1).drop_last() =~= refs.take(k));
    assert(refs.take(k + 1).last() == refs[k]);
}

/// What resolving the first `n` configuration groups returns, given the
/// sequence of browse replies the containers received so far, and how many
/// replies were consumed. Groups are processed in order; a missing namespace
/// or a failed container expansion stops resolution with that error.
pub open spec fn spec_resolve_upto(
    groups: Seq<TagsConfigGroup>,
    ns: Map<Seq<char>, u16>,
    replies: Seq<Result<Option<Vec<BrowseResult>>, ServiceError>>,
    restrict: bool,
    n: int,
) -> (Result<Seq<Tag>, TagSetError>, int)
    decreases n,
{
    if n <= 0 {
        (Ok(Seq::empty()), 0)
    } else {
        let prev = spec_resolve_upto(groups, ns, replies, restrict, n - 1);
        if prev.0 is Err {
            prev
        } else {
            let tags = prev.0->Ok_0;
            let used = prev.1;
            match groups[n - 1] {
                TagsConfigGroup::Tag { name, namespace_uri, node_identifier } => {
                    if !ns.contains_key(namespace_uri@) {
                        (Err(TagSetError::NamespaceNotFound(namespace_uri)), used)
                    } else {
                        (
                            Ok(
                                tags.push(
                                    Tag {
                                        name,
                                        node_id: NodeId {
                                            namespace: ns[namespace_uri@],
                                            identifier: spec_identifier_of(node_identifier),
                                        },
                                    },
                                ),
                            ),
                            used,
                        )
                    }
                },
                TagsConfigGroup::Container { namespace_uri, node_identifier: _ } => {
                    if !ns.contains_key(namespace_uri@) {
                        (Err(TagSetError::NamespaceNotFound(namespace_uri)), used)
                    } else if used >= replies.len() {
                        (Err(TagSetError::MissingBrowseResponse), used)
                    } else {
                        match spec_container_tags(replies[used], restrict) {
                            Err(e) => (Err(e), used + 1),
                            Ok(container) => (Ok(tags + container), used + 1),
                        }
                    }
                },
            }
        }
    }
}

/// What resolving a whole configuration returns, given the browse replies
/// its containers received.
pub open spec fn spec_resolve(
    groups: Seq<TagsConfigGroup>,
    ns: Map<Seq<char>, u16>,
    replies: Seq<Result<Option<Vec<BrowseResult>>, ServiceError>>,
    restrict: bool,
) -> Result<Seq<Tag>, TagSetError> {
    spec_resolve_upto(groups, ns, replies, restrict, groups.len() as int).0
}

/// A reply appended after the consumed ones changes nothing about an
/// already-successful resolution prefix.
proof fn lemma_resolve_upto_extend(
    groups: Seq<TagsConfigGroup>,
    ns: Map<Seq<char>, u16>,
    replies: Seq<Result<Option<Vec<BrowseResult>>, ServiceError>>,
    extra: Result<Option<Vec<BrowseResult>>, ServiceError>,
    restrict: bool,
    n: int,
)
    requires
        0 <= n <= groups.len(),
        spec_resolve_upto(groups, ns, replies, restrict, n).0 is Ok,
    ensures
        spec_resolve_upto(groups, ns, replies.push(extra), restrict, n) == spec_resolve_upto(
            groups,
            ns,
            replies,
            restrict,
            n,
        ),
        0 <= spec_resolve_upto(groups, ns, replies, restrict, n).1 <= replies.len(),
    decreases n,
{
    if n > 0 {
        if !(spec_resolve_upto(groups, ns, replies, restrict, n - 1).0 is Ok) {
            lemma_resolve_upto_error(groups, ns, replies, restrict, n - 1, n);
            assert(false);
        }
        lemma_resolve_upto_extend(groups, ns, replies, extra, restrict, n - 1);
        let prev = spec_resolve_upto(groups, ns, replies, restrict, n - 1);
        if groups[n - 1] is Container {
            assert(prev.1 < replies.len());
            assert(replies.push(extra)[prev.1] == replies[prev.1]);
        }
    }
}

/// Once resolution has failed, later groups change nothing.
proof fn lemma_resolve_upto_error(
    groups: Seq<TagsConfigGroup>,
    ns: Map<Seq<char>, u16>,
    replies: Seq<Result<Option<Vec<BrowseResult>>, ServiceError>>,
    restrict: bool,
    n: int,
    m: int,
)
    requires
        0 <= n <= m <= groups.len(),
        spec_resolve_upto(groups, ns, replies, restrict, n).0 is Err,
    ensures
        spec_resolve_upto(groups, ns, replies, restrict, m) == spec_resolve_upto(
            groups,
            ns,
            replies,
            restrict,
            n,
        ),
    decreases m - n,
{
    if m > n {
        lemma_resolve_upto_error(groups, ns, replies, restrict, n, m - 1);
    }
}

/// With no container groups, the browse replies play no part: any two reply
/// sequences resolve a direct-tag-only configuration identically.
pub proof fn lemma_resolve_direct_tags(
    groups: Seq<TagsConfigGroup>,
    ns: Map<Seq<char>, u16>,
    replies1: Seq<Result<Option<Vec<BrowseResult>>, ServiceError>>,
    replies2: Seq<Result<Option<Vec<BrowseResult>>, ServiceError>>,
    restrict: bool,
)
    requires
        forall|i: int| 0 <= i < groups.len() ==> #[trigger] groups[i] is Tag,
    ensures
        spec_resolve(groups, ns, replies1, restrict) == spec_resolve(groups, ns, replies2, restrict),
{
    assert forall|n: int| 0 <= n <= groups.len() implies spec_resolve_upto(
        groups,
        ns,
        replies1,
        restrict,
        n,
    ) == spec_resolve_upto(groups, ns, replies2, restrict, n) by {
        lemma_resolve_upto_no_container(groups, ns, replies1, replies2, restrict, n);
    }
}

/// Induction step behind [`lemma_resolve_direct_tags`].
proof fn lemma_resolve_upto_no_container(
    groups: Seq<TagsConfigGroup>,
    ns: Map<Seq<char>, u16>,
    replies1: Seq<Result<Option<Vec<BrowseResult>>, ServiceError>>,
    replies2: Seq<Result<Option<Vec<BrowseResult>>, ServiceError>>,
    restrict: bool,
    n: int,
)
    requires
        0 <= n <= groups.len(),
        forall|i: int| 0 <= i < groups.len() ==> #[trigger] groups[i] is Tag,
    ensures
        spec_resolve_upto(groups, ns, replies1, restrict, n) == spec_resolve_upto(
            groups,
            ns,
            replies2,
            restrict,
            n,
        ),
    decreases n,
{
    if n > 0 {
        lemma_resolve_upto_no_container(groups, ns, replies1, replies2, restrict, n - 1);
    }
}

/// Builds the browse request that expands one container under the
/// hierarchical reference kinds, subtypes included, restricted to variable
/// nodes, asking for display names and reference kinds.
pub fn hierarchical_browse_description(node_id: NodeId) -> (r: BrowseDescription)
    ensures
        r.node_id == node_id,
        r.browse_direction == BrowseDirection::Forward,
        r.reference_type_id == (NodeId {
            namespace: 0,
            identifier: Identifier::Numeric(REFERENCE_TYPE_HIERARCHICAL),
        }),
        r.include_subtypes == true,
        r.node_class_mask == NODE_CLASS_MASK_VARIABLE,
        r.result_mask == RESULT_MASK_DISPLAY_NAME | RESULT_MASK_REFERENCE_TYPE,
{
    BrowseDescription {
        node_id,
        browse_direction: BrowseDirection::Forward,
        reference_type_id: NodeId {
            namespace: 0,
            identifier: Identifier::Numeric(REFERENCE_TYPE_HIERARCHICAL),
        },
        include_subtypes: true,
        node_class_mask: NODE_CLASS_MASK_VARIABLE,
        result_mask: RESULT_MASK_DISPLAY_NAME | RESULT_MASK_REFERENCE_TYPE,
    }
}

/// Builds the browse request that expands one container through component
/// references only, without subtypes, restricted to variable nodes, asking
/// for display names.
pub fn component_browse_description(node_id: NodeId) -> (r: BrowseDescription)
    ensures
        r.node_id == node_id,
        r.browse_direction == BrowseDirection::Forward,
        r.reference_type_id == (NodeId {
            namespace: 0,
            identifier: Identifier::Numeric(REFERENCE_TYPE_HAS_COMPONENT),
        }),
        r.include_subtypes == false,
        r.node_class_mask == NODE_CLASS_MASK_VARIABLE,
        r.result_mask == RESULT_MASK_DISPLAY_NAME,
{
    BrowseDescription {
        node_id,
        browse_direction: BrowseDirection::Forward,
        reference_type_id: NodeId {
            namespace: 0,
            identifier: Identifier::Numeric(REFERENCE_TYPE_HAS_COMPONENT),
        },
        include_subtypes: false,
        node_class_mask: NODE_CLASS_MASK_VARIABLE,
        result_mask: RESULT_MASK_DISPLAY_NAME,
    }
}

/// Resolves every configuration group in order against the namespace map,
/// expanding containers over the session. The outcome is exactly
/// [`spec_resolve`] applied to the replies the session gave.
#[verifier::loop_isolation(false)]
fn resolve_config_groups<T: ViewService>(
    config: &Vec<TagsConfigGroup>,
    namespaces: &Namespaces,
    session: &T,
    restrict: bool,
) -> (r: Result<Vec<Tag>, TagSetError>)
    requires
        namespaces.wf(),
    ensures
        exists|replies: Seq<Result<Option<Vec<BrowseResult>>, ServiceError>>|
            tags_result_view(r) == #[trigger] spec_resolve(config@, namespaces@, replies, restrict),
{
    let ghost ns = namespaces@;
    let mut tag_set: Vec<Tag> = Vec::new();
    let ghost mut replies: Seq<Result<Option<Vec<BrowseResult>>, ServiceError>> = Seq::empty();
    let mut i: usize = 0;
    while i < config.len()
        invariant
            i <= config@.len(),
            spec_resolve_upto(config@, ns, replies, restrict, i as int) == (
                Ok::<Seq<Tag>, TagSetError>(tag_set@),
                replies.len() as int,
            ),
        decreases config@.len() - i,
    {
        match &config[i] {
            TagsConfigGroup::Container { namespace_uri, node_identifier } => {
                let namespace = match namespaces.get(namespace_uri) {
                    Some(namespace) => namespace,
                    None => {
                        let missing = TagSetError::NamespaceNotFound(namespace_uri.clone());
                        proof {
                            assert(spec_resolve_upto(config@, ns, replies, restrict, i as int + 1)
                                == (Err::<Seq<Tag>, TagSetError>(missing), replies.len() as int));
                            lemma_resolve_upto_error(
                                config@,
                                ns,
                                replies,
                                restrict,
                                i as int + 1,
                                config@.len() as int,
                            );
                            assert(tags_result_view(Err(missing)) == spec_resolve(
                                config@,
                                namespaces@,
                                replies,
                                restrict,
                            ));
                        }
                        return Err(missing);
                    },
                };
                let node_id = NodeId::new(namespace, node_identifier.clone());
                let description = if restrict {
                    hierarchical_browse_description(node_id)
                } else {
                    component_browse_description(node_id)
                };
                let reply = session.browse(&description);
                proof {
                    lemma_resolve_upto_extend(config@, ns, replies, reply, restrict, i as int);
                    replies = replies.push(reply);
                    assert(replies[replies.len() - 1] == reply);
                }
                match container_tags(reply, restrict) {
                    Ok(mut container) => {
                        tag_set.append(&mut container);
                    },
                    Err(e) => {
                        proof {
                            assert(spec_resolve_upto(config@, ns, replies, restrict, i as int + 1)
                                == (Err::<Seq<Tag>, TagSetError>(e), replies.len() as int));
                            lemma_resolve_upto_error(
                                config@,
                                ns,
                                replies,
                                restrict,
                                i as int + 1,
                                config@.len() as int,
                            );
                            assert(tags_result_view(Err(e)) == spec_resolve(
                                config@,
                                namespaces@,
                                replies,
                                restrict,
                            ));
                        }
                        return Err(e);
                    },
                }
            },
            TagsConfigGroup::Tag { name, namespace_uri, node_identifier } => {
                let namespace = match namespaces.get(namespace_uri) {
                    Some(namespace) => namespace,
                    None => {
                        let missing = TagSetError::NamespaceNotFound(namespace_uri.clone());
                        proof {
                            assert(spec_resolve_upto(config@, ns, replies, restrict, i as int + 1)
                                == (Err::<Seq<Tag>, TagSetError>(missing), replies.len() as int));
                            lemma_resolve_upto_error(
                                config@,
                                ns,
                                replies,
                                restrict,
                                i as int + 1,
                                config@.len() as int,
                            );
                            assert(tags_result_view(Err(missing)) == spec_resolve(
                                config@,
                                namespaces@,
                                replies,
                                restrict,
                            ));
                        }
                        return Err(missing);
                    },
                };
                let node_id = NodeId::new(namespace, node_identifier.clone());
                tag_set.push(Tag { name: name.clone(), node_id });
            },
        }
        i += 1;
    }
    proof {
        assert(tags_result_view(Ok(tag_set)) == spec_resolve(config@, namespaces@, replies, restrict));
    }
    Ok(tag_set)
}

/// Resolves a configuration into its ordered tag list, expanding containers
/// through the hierarchical reference kinds and keeping only component and
/// organizational references.
pub fn tag_set_from_config_groups<T: ViewService>(
    config: &Vec<TagsConfigGroup>,
    namespaces: &Namespaces,
    session: &T,
) -> (r: Result<Vec<Tag>, TagSetError>)
    requires
        namespaces.wf(),
    ensures
        exists|replies: Seq<Result<Option<Vec<BrowseResult>>, ServiceError>>|
            tags_result_view(r) == #[trigger] spec_resolve(config@, namespaces@, replies, true),
{
    resolve_config_groups(config, namespaces, session, true)
}

/// The resolved tag list of one session, in subscription order.
#[derive(Debug, PartialEq, Eq)]
pub struct TagSet(pub Vec<Tag>);

/// Result of turning a resolved tag set into its sequence of values.
pub open spec fn set_result_view(r: Result<TagSet, TagSetError>) -> Result<Seq<Tag>, TagSetError> {
    match r {
        Ok(tag_set) => Ok(tag_set.0@),
        Err(e) => Err(e),
    }
}

/// Whether the set holds a tag of this name.
pub open spec fn spec_set_contains(tags: Seq<Tag>, name: Seq<char>) -> bool {
    exists|j: int| 0 <= j < tags.len() && (#[trigger] tags[j]).name@ == name
}

impl TagSet {
    /// Resolves a configuration into a tag set, expanding containers through
    /// component references only.
    pub fn from_config<T: ViewService>(
        config: Vec<TagsConfigGroup>,
        namespaces: &Namespaces,
        session: &T,
    ) -> (r: Result<TagSet, TagSetError>)
        requires
            namespaces.wf(),
        ensures
            exists|replies: Seq<Result<Option<Vec<BrowseResult>>, ServiceError>>|
                set_result_view(r) == #[trigger] spec_resolve(config@, namespaces@, replies, false),
    {
        match resolve_config_groups(&config, namespaces, session, false) {
            Ok(tags) => Ok(TagSet(tags)),
            Err(e) => Err(e),
        }
    }

    /// Whether the set holds a tag of this name.
    fn contains(&self, name: &String) -> (r: bool)
        ensures
            r == spec_set_contains(self.0@, name@),
    {
        let mut i: usize = 0;
        while i < self.0.len()
            invariant
                i <= self.0@.len(),
                forall|j: int| 0 <= j < i ==> (#[trigger] self.0@[j]).name@ != name@,
            decreases self.0@.len() - i,
        {
            if self.0[i].name == *name {
                return true;
            }
            i += 1;
        }
        false
    }

    /// Checks that every asked-for tag name is in the set: `Ok` exactly when
    /// all are, and otherwise the first missing name.
    pub fn check_contains_tags(&self, tags_names: &Vec<String>) -> (r: Result<(), TagSetError>)
        ensures
            r is Ok <==> (forall|i: int|
                0 <= i < tags_names@.len() ==> spec_set_contains(
                    self.0@,
                    (#[trigger] tags_names@[i])@,
                )),
            r matches Err(e) ==> exists|k: int|
                {
                    &&& 0 <= k < tags_names@.len()
                    &&& e == TagSetError::TagNotFound(tags_names@[k])
                    &&& !spec_set_contains(self.0@, (#[trigger] tags_names@[k])@)
                    &&& forall|m: int|
                        0 <= m < k ==> spec_set_contains(self.0@, (#[trigger] tags_names@[m])@)
                },
    {
        let mut i: usize = 0;
        while i < tags_names.len()
            invariant
                i <= tags_names@.len(),
                forall|m: int|
                    0 <= m < i ==> spec_set_contains(self.0@, (#[trigger] tags_names@[m])@),
            decreases tags_names@.len() - i,
        {
            if !self.contains(&tags_names[i]) {
                return Err(TagSetError::TagNotFound(tags_names[i].clone()));
            }
            i += 1;
        }
        Ok(())
    }
}

} // verus!
