//! Reconciliation scenarios driven through the control loop's step function.

use opcua_proxy::session::{create_session, IdentityToken, PartnerConfig};
use opcua_proxy::session_manager::{Action, Event, SessionManager};
use opcua_proxy::namespaces::Namespaces;
use opcua_proxy::node_identifier::NodeIdentifier;
use opcua_proxy::subscription::{data_change_message, MonitoredItemNotification};
use opcua_proxy::tag_set::{tag_set_from_config_groups, TagSet, TagsConfigGroup, ViewService};
use opcua_proxy::status::ServiceError;
use opcua_proxy::variant::Variant;

/// Protocol ticks of the Unix epoch.
const UNIX_EPOCH_TICKS: i64 = 116_444_736_000_000_000;

fn partner(partner_id: &str, tags: Vec<TagsConfigGroup>) -> PartnerConfig {
    PartnerConfig {
        partner_id: partner_id.to_string(),
        server_url: "opc.tcp://server:4840".to_string(),
        security_policy: "None".to_string(),
        security_mode: "None".to_string(),
        user: None,
        password: None,
        tags,
    }
}

fn direct_tag(name: &str, namespace_uri: &str, numeric_id: u32) -> TagsConfigGroup {
    TagsConfigGroup::Tag {
        name: name.to_string(),
        namespace_uri: namespace_uri.to_string(),
        node_identifier: NodeIdentifier::Numeric(numeric_id),
    }
}

struct NoBrowse;

impl ViewService for NoBrowse {
    fn browse(
        &self,
        _description: &opcua_proxy::tag_set::BrowseDescription,
    ) -> Result<Option<Vec<opcua_proxy::tag_set::BrowseResult>>, ServiceError> {
        panic!("no container groups, so no browse expected");
    }
}

fn start_targets(actions: &[Action]) -> Vec<String> {
    actions
        .iter()
        .filter_map(|action| match action {
            Action::StartSession(config) => Some(config.partner_id.clone()),
            _ => None,
        })
        .collect()
}

#[test]
fn fetch_failure_changes_nothing() {
    let mut manager = SessionManager::new();
    let p1 = partner("P1", vec![]);
    manager.step(Event::ConfigFetched(vec![p1.clone()]));
    let actions = manager.step(Event::ReconcileTick(vec![]));
    assert_eq!(start_targets(&actions), vec!["P1".to_string()]);
    manager.step(Event::SessionStarted(p1.clone(), 1));

    for _ in 0..3 {
        let actions = manager.step(Event::ConfigFetchFailed);
        assert_eq!(actions, vec![Action::ShortenConfigRetry]);
    }

    // The desired set and the running session both survived the failures.
    let actions = manager.step(Event::ReconcileTick(vec![]));
    assert!(actions.is_empty());
}

#[test]
fn removed_partner_gets_one_remove_then_stop() {
    let mut manager = SessionManager::new();
    let p1 = partner("P1", vec![]);
    manager.step(Event::ConfigFetched(vec![p1.clone()]));
    manager.step(Event::ReconcileTick(vec![]));
    manager.step(Event::SessionStarted(p1.clone(), 1));

    let actions = manager.step(Event::ConfigFetched(vec![]));
    assert_eq!(
        actions,
        vec![
            Action::SendHealthRemove("P1".to_string()),
            Action::StopSession(1),
        ]
    );

    // Gone from the tracked map on the same tick: nothing left to do.
    let actions = manager.step(Event::ReconcileTick(vec![]));
    assert!(actions.is_empty());
}

#[test]
fn dead_session_restarted_once_per_tick() {
    let mut manager = SessionManager::new();
    let p1 = partner("P1", vec![]);
    manager.step(Event::ConfigFetched(vec![p1.clone()]));
    manager.step(Event::ReconcileTick(vec![]));
    manager.step(Event::SessionStarted(p1.clone(), 1));

    let actions = manager.step(Event::ReconcileTick(vec![1]));
    assert_eq!(start_targets(&actions), vec!["P1".to_string()]);

    // While the restart is pending, a repeated tick starts it exactly once
    // again, now through the missing-partner path.
    let actions = manager.step(Event::ReconcileTick(vec![1]));
    assert_eq!(start_targets(&actions), vec!["P1".to_string()]);
}

#[test]
fn changed_tag_list_restarts_the_whole_session() {
    let mut manager = SessionManager::new();
    let old_config = partner("P1", vec![direct_tag("A", "ns1", 3)]);
    manager.step(Event::ConfigFetched(vec![old_config.clone()]));
    manager.step(Event::ReconcileTick(vec![]));
    manager.step(Event::SessionStarted(old_config.clone(), 1));

    let new_config = partner("P1", vec![direct_tag("A", "ns1", 3), direct_tag("B", "ns1", 4)]);
    let actions = manager.step(Event::ConfigFetched(vec![new_config.clone()]));
    assert_eq!(
        actions,
        vec![
            Action::SendHealthRemove("P1".to_string()),
            Action::StopSession(1),
        ]
    );

    let actions = manager.step(Event::ReconcileTick(vec![]));
    assert_eq!(start_targets(&actions), vec!["P1".to_string()]);
    match &actions[0] {
        Action::StartSession(config) => assert_eq!(config.tags.len(), 2),
        other => panic!("expected a start, got {other:?}"),
    }
}

#[test]
fn shutdown_stops_every_session_and_exits() {
    let mut manager = SessionManager::new();
    let p1 = partner("P1", vec![]);
    let p2 = partner("P2", vec![]);
    manager.step(Event::ConfigFetched(vec![p1.clone(), p2.clone()]));
    manager.step(Event::ReconcileTick(vec![]));
    manager.step(Event::SessionStarted(p1, 1));
    manager.step(Event::SessionStarted(p2, 2));

    let actions = manager.step(Event::Shutdown);
    assert_eq!(
        actions,
        vec![
            Action::StopSession(1),
            Action::StopSession(2),
            Action::Exit,
        ]
    );
}

#[test]
fn reconcile_before_first_fetch_is_a_no_op() {
    let mut manager = SessionManager::new();
    let actions = manager.step(Event::ReconcileTick(vec![]));
    assert!(actions.is_empty());
}

#[test]
fn data_change_end_to_end() {
    // Desired set: one partner with two directly addressed tags.
    let config = partner(
        "P1",
        vec![direct_tag("A", "ns1", 3), direct_tag("B", "ns1", 4)],
    );
    let mut manager = SessionManager::new();
    manager.step(Event::ConfigFetched(vec![config.clone()]));
    let actions = manager.step(Event::ReconcileTick(vec![]));
    let started = match &actions[0] {
        Action::StartSession(started) => started,
        other => panic!("expected a start, got {other:?}"),
    };

    // Session initialization: resolve the tags and bind the handles.
    let mut namespaces = Namespaces::new();
    namespaces.insert("ns1".to_string(), 1);
    let tags =
        tag_set_from_config_groups(&started.tags, &namespaces, &NoBrowse).expect("resolution");
    let tag_set = TagSet(tags);
    assert_eq!(tag_set.0[0].name, "A");
    assert_eq!(tag_set.0[1].name, "B");

    // A notification with handle 1, value true and a source timestamp.
    let items = vec![MonitoredItemNotification {
        client_handle: 1,
        value: Some(Variant::Boolean(true)),
        source_timestamp: Some(UNIX_EPOCH_TICKS),
    }];
    let message = data_change_message("P1", &tag_set, items).expect("a batch");
    assert_eq!(message.partner_id, "P1");
    assert_eq!(message.changes.len(), 1);
    assert_eq!(message.changes[0].tag_name, "A");
    assert!(matches!(message.changes[0].value, Variant::Boolean(true)));
    assert_eq!(message.changes[0].source_timestamp, 0);
}

#[test]
fn connection_request_uses_credentials_only_when_complete() {
    let mut config = partner("P1", vec![]);
    config.user = Some("user".to_string());
    config.password = Some("pass".to_string());
    let request = create_session(&config);
    assert_eq!(request.endpoint.url, "opc.tcp://server:4840");
    assert_eq!(
        request.identity,
        IdentityToken::UserName("user".to_string(), "pass".to_string())
    );

    config.password = None;
    let request = create_session(&config);
    assert_eq!(request.identity, IdentityToken::Anonymous);
}
