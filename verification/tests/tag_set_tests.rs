//! Tag resolution against canned browse replies.

use opcua_proxy::namespaces::Namespaces;
use opcua_proxy::node_identifier::{Identifier, NodeId, NodeIdentifier};
use opcua_proxy::status::{ServiceError, StatusCode, STATUS_BAD_INTERNAL_ERROR, STATUS_GOOD};
use opcua_proxy::tag_set::{
    tag_set_from_config_groups, BrowseDescription, BrowseResult, ReferenceDescription, TagSet,
    TagsConfigGroup, ViewService,
};
use std::cell::RefCell;

struct ViewServiceMock {
    browse_outcome: RefCell<Option<Result<Option<Vec<BrowseResult>>, ServiceError>>>,
}

impl ViewServiceMock {
    fn new(outcome: Result<Option<Vec<BrowseResult>>, ServiceError>) -> Self {
        ViewServiceMock {
            browse_outcome: RefCell::new(Some(outcome)),
        }
    }
}

impl ViewService for ViewServiceMock {
    fn browse(
        &self,
        _description: &BrowseDescription,
    ) -> Result<Option<Vec<BrowseResult>>, ServiceError> {
        self.browse_outcome
            .borrow_mut()
            .take()
            .expect("one browse expected")
    }
}

fn good() -> StatusCode {
    StatusCode { bits: STATUS_GOOD }
}

fn bad_internal_error() -> StatusCode {
    StatusCode { bits: STATUS_BAD_INTERNAL_ERROR }
}

fn container(namespace_uri: &str) -> TagsConfigGroup {
    TagsConfigGroup::Container {
        namespace_uri: namespace_uri.to_string(),
        node_identifier: NodeIdentifier::Numeric(0),
    }
}

#[test]
fn opcua_container_namespace_not_found() {
    let config = vec![container("nonexistent")];
    let namespaces = Namespaces::new();
    let session = ViewServiceMock::new(Ok(Some(vec![])));

    let result = TagSet::from_config(config, &namespaces, &session);

    assert!(result.is_err());
}

#[test]
fn browse_error() {
    let config = vec![container("urn:ns")];
    let mut namespaces = Namespaces::new();
    namespaces.insert("urn:ns".to_string(), 1);
    let session = ViewServiceMock::new(Err(ServiceError::Status(bad_internal_error())));

    let result = TagSet::from_config(config, &namespaces, &session);

    assert!(result.is_err());
}

#[test]
fn empty_browse_results() {
    let config = vec![container("urn:ns")];
    let mut namespaces = Namespaces::new();
    namespaces.insert("urn:ns".to_string(), 1);
    let session = ViewServiceMock::new(Ok(Some(vec![])));

    let result = TagSet::from_config(config, &namespaces, &session);

    assert!(result.is_err());
}

#[test]
fn continuation_point() {
    let config = vec![container("urn:ns")];
    let mut namespaces = Namespaces::new();
    namespaces.insert("urn:ns".to_string(), 1);
    let session = ViewServiceMock::new(Ok(Some(vec![BrowseResult {
        status_code: good(),
        continuation_point: Some(b"deadbeef".to_vec()),
        references: Some(vec![]),
    }])));

    let result = TagSet::from_config(config, &namespaces, &session);

    assert!(result.is_err());
}

#[test]
fn opcua_tag_namespace_not_found() {
    let config = vec![TagsConfigGroup::Tag {
        name: "somename".to_string(),
        namespace_uri: "nonexistent".to_string(),
        node_identifier: NodeIdentifier::Numeric(0),
    }];
    let namespaces = Namespaces::new();
    let session = ViewServiceMock::new(Ok(Some(vec![])));

    let result = TagSet::from_config(config, &namespaces, &session);

    assert!(result.is_err());
}

fn reference(variable_id: u32, name: &str, reference_type: u32) -> ReferenceDescription {
    ReferenceDescription {
        reference_type_id: NodeId {
            namespace: 0,
            identifier: Identifier::Numeric(reference_type),
        },
        node_id: NodeId {
            namespace: 0,
            identifier: Identifier::Numeric(variable_id),
        },
        display_name: name.to_string(),
    }
}

#[test]
fn from_config_success() {
    let config = vec![
        container("urn:ns"),
        TagsConfigGroup::Tag {
            name: "somename".to_string(),
            namespace_uri: "urn:ns2".to_string(),
            node_identifier: NodeIdentifier::String("some_node_id".to_string()),
        },
    ];
    let mut namespaces = Namespaces::new();
    namespaces.insert("urn:ns".to_string(), 1);
    namespaces.insert("urn:ns2".to_string(), 2);
    let references = vec![
        reference(3069, "LocalTime", 0),
        reference(2267, "Server_ServiceLevel", 0),
    ];
    let session = ViewServiceMock::new(Ok(Some(vec![BrowseResult {
        status_code: good(),
        continuation_point: None,
        references: Some(references),
    }])));

    let result =
        TagSet::from_config(config, &namespaces, &session).expect("result should not be an error");

    assert_eq!(result.0[0].name, "LocalTime");
    assert_eq!(
        result.0[0].node_id,
        NodeId {
            namespace: 0,
            identifier: Identifier::Numeric(3069)
        }
    );
    assert_eq!(result.0[1].name, "Server_ServiceLevel");
    assert_eq!(
        result.0[1].node_id,
        NodeId {
            namespace: 0,
            identifier: Identifier::Numeric(2267)
        }
    );
    assert_eq!(result.0[2].name, "somename");
    assert_eq!(
        result.0[2].node_id,
        NodeId::new(2, NodeIdentifier::String("some_node_id".to_string()))
    );
}

fn create_tag_set() -> TagSet {
    let tag = |name: &str| opcua_proxy::tag_set::Tag {
        name: name.to_string(),
        node_id: NodeId {
            namespace: 0,
            identifier: Identifier::String(String::new()),
        },
    };
    TagSet(vec![tag("firstTag"), tag("secondTag"), tag("thirdTag")])
}

#[test]
fn empty_tags_names() {
    let tag_set = create_tag_set();

    let result = tag_set.check_contains_tags(&vec![]);

    assert!(result.is_ok());
}

#[test]
fn missing_tag_name() {
    let tag_set = create_tag_set();
    let tags_names = vec!["secondTag".to_string(), "nonExistent".to_string()];

    let result = tag_set.check_contains_tags(&tags_names);

    assert!(result.is_err());
}

#[test]
fn success() {
    let tag_set = create_tag_set();
    let tags_names = vec!["firstTag".to_string(), "thirdTag".to_string()];

    let result = tag_set.check_contains_tags(&tags_names);

    assert!(result.is_ok());
}

#[test]
fn tag_set_container_namespace_not_found() {
    let config = vec![container("nonexistent")];
    let namespaces = Namespaces::new();
    let session = ViewServiceMock::new(Ok(Some(vec![])));

    let result = tag_set_from_config_groups(&config, &namespaces, &session);

    assert!(result.is_err());
}

#[test]
fn tag_set_browse_error() {
    let config = vec![container("urn:ns")];
    let mut namespaces = Namespaces::new();
    namespaces.insert("urn:ns".to_string(), 1);
    let session = ViewServiceMock::new(Err(ServiceError::Status(bad_internal_error())));

    let result = tag_set_from_config_groups(&config, &namespaces, &session);

    assert!(result.is_err());
}

#[test]
fn tag_set_empty_browse_results() {
    let config = vec![container("urn:ns")];
    let mut namespaces = Namespaces::new();
    namespaces.insert("urn:ns".to_string(), 1);
    let session = ViewServiceMock::new(Ok(Some(vec![])));

    let result = tag_set_from_config_groups(&config, &namespaces, &session);

    assert!(result.is_err());
}

#[test]
fn tag_set_continuation_point() {
    let config = vec![container("urn:ns")];
    let mut namespaces = Namespaces::new();
    namespaces.insert("urn:ns".to_string(), 1);
    let session = ViewServiceMock::new(Ok(Some(vec![BrowseResult {
        status_code: good(),
        continuation_point: Some(b"deadbeef".to_vec()),
        references: Some(vec![]),
    }])));

    let result = tag_set_from_config_groups(&config, &namespaces, &session);

    assert!(result.is_err());
}

#[test]
fn tag_set_tag_namespace_not_found() {
    let config = vec![TagsConfigGroup::Tag {
        name: "somename".to_string(),
        namespace_uri: "nonexistent".to_string(),
        node_identifier: NodeIdentifier::Numeric(0),
    }];
    let namespaces = Namespaces::new();
    let session = ViewServiceMock::new(Ok(Some(vec![])));

    let result = tag_set_from_config_groups(&config, &namespaces, &session);

    assert!(result.is_err());
}

#[test]
fn tag_set_success() {
    let config = vec![
        container("urn:ns"),
        TagsConfigGroup::Tag {
            name: "somename".to_string(),
            namespace_uri: "urn:ns2".to_string(),
            node_identifier: NodeIdentifier::String("some_node_id".to_string()),
        },
    ];
    let mut namespaces = Namespaces::new();
    namespaces.insert("urn:ns".to_string(), 1);
    namespaces.insert("urn:ns2".to_string(), 2);
    let references = vec![
        reference(3069, "LocalTime", 47),
        reference(2267, "Server_ServiceLevel", 35),
        reference(2256, "Server_ServerStatus", 36),
    ];
    let session = ViewServiceMock::new(Ok(Some(vec![BrowseResult {
        status_code: good(),
        continuation_point: None,
        references: Some(references),
    }])));

    let result = tag_set_from_config_groups(&config, &namespaces, &session)
        .expect("result should not be an error");

    assert_eq!(result.len(), 3);
    assert_eq!(result[0].name, "LocalTime");
    assert_eq!(
        result[0].node_id,
        NodeId {
            namespace: 0,
            identifier: Identifier::Numeric(3069)
        }
    );
    assert_eq!(result[1].name, "Server_ServiceLevel");
    assert_eq!(
        result[1].node_id,
        NodeId {
            namespace: 0,
            identifier: Identifier::Numeric(2267)
        }
    );
    assert_eq!(result[2].name, "somename");
    assert_eq!(
        result[2].node_id,
        NodeId::new(2, NodeIdentifier::String("some_node_id".to_string()))
    );
}

#[test]
fn missing_browse_response_is_an_error() {
    let config = vec![container("urn:ns")];
    let mut namespaces = Namespaces::new();
    namespaces.insert("urn:ns".to_string(), 1);
    let session = ViewServiceMock::new(Ok(None));

    let result = tag_set_from_config_groups(&config, &namespaces, &session);

    assert_eq!(
        result.unwrap_err(),
        opcua_proxy::tag_set::TagSetError::MissingBrowseResponse
    );
}

#[test]
fn bad_browse_result_status_is_an_error() {
    let config = vec![container("urn:ns")];
    let mut namespaces = Namespaces::new();
    namespaces.insert("urn:ns".to_string(), 1);
    let session = ViewServiceMock::new(Ok(Some(vec![BrowseResult {
        status_code: bad_internal_error(),
        continuation_point: None,
        references: Some(vec![]),
    }])));

    let result = tag_set_from_config_groups(&config, &namespaces, &session);

    assert_eq!(
        result.unwrap_err(),
        opcua_proxy::tag_set::TagSetError::BrowseResultStatus(bad_internal_error())
    );
}

#[test]
fn missing_references_is_an_error() {
    let config = vec![container("urn:ns")];
    let mut namespaces = Namespaces::new();
    namespaces.insert("urn:ns".to_string(), 1);
    let session = ViewServiceMock::new(Ok(Some(vec![BrowseResult {
        status_code: good(),
        continuation_point: None,
        references: None,
    }])));

    let result = tag_set_from_config_groups(&config, &namespaces, &session);

    assert_eq!(
        result.unwrap_err(),
        opcua_proxy::tag_set::TagSetError::MissingReferences
    );
}

#[test]
fn browse_lock_timeout_is_an_error() {
    let config = vec![container("urn:ns")];
    let mut namespaces = Namespaces::new();
    namespaces.insert("urn:ns".to_string(), 1);
    let session = ViewServiceMock::new(Err(ServiceError::LockTimeout));

    let result = tag_set_from_config_groups(&config, &namespaces, &session);

    assert_eq!(
        result.unwrap_err(),
        opcua_proxy::tag_set::TagSetError::LockTimeout
    );
}

#[test]
fn first_missing_tag_name_is_reported() {
    let tag_set = create_tag_set();
    let tags_names = vec!["nope".to_string(), "alsoMissing".to_string()];

    let result = tag_set.check_contains_tags(&tags_names);

    assert_eq!(
        result.unwrap_err(),
        opcua_proxy::tag_set::TagSetError::TagNotFound("nope".to_string())
    );
}
