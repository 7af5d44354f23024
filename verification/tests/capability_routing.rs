use steersman_core::capability_router::{
    label_le_exec, CapabilityInvocationInput, CapabilityRoute, CapabilityRouter, CapabilityRoutingError,
    CapabilityRoutingOutcome, ConversationId, DefaultRoutingPolicy, StaticCapabilityRegistry,
};
use steersman_core::integration_domain::{
    CapabilityId, IntegrationDefinitionId, IntegrationInstance, IntegrationInstanceId, IntegrationIssue,
    IntegrationManagement, IntegrationStatus,
};
use steersman_core::json::Json;

fn instance(cap: &str) -> IntegrationInstance {
    IntegrationInstance {
        version: 1,
        id: IntegrationInstanceId(uuid::Uuid::new_v4().to_string()),
        definition_id: IntegrationDefinitionId("test".into()),
        display_name: "Test".into(),
        status: IntegrationStatus::Ready,
        enabled: true,
        management: IntegrationManagement::UserManaged,
        configured_capabilities: vec![CapabilityId(cap.into())],
        created_at: 1,
        updated_at: 2,
    }
}

fn named(cap: &str, name: &str) -> IntegrationInstance {
    let mut i = instance(cap);
    i.display_name = name.into();
    i
}

fn object() -> CapabilityInvocationInput {
    CapabilityInvocationInput { values: Json::Object(vec![]) }
}

fn conv() -> ConversationId {
    ConversationId("c".into())
}

#[test]
fn selects_single_ready_instance() {
    let r = CapabilityRouter::new();
    let items = vec![instance("issue.read")];
    let outcome = r.resolve(&conv(), &CapabilityId("issue.search".into()), &object(), &items, false).unwrap();
    match outcome {
        CapabilityRoutingOutcome::Selected { route } => {
            assert_eq!(route.instance_id, items[0].id);
            assert_eq!(route.capability_id, CapabilityId("issue.search".into()));
            assert_eq!(route.revision, 2);
        }
        other => panic!("expected Selected, got {:?}", other),
    }
}

#[test]
fn unknown_capability_is_rejected() {
    let r = CapabilityRouter::new();
    assert_eq!(
        r.resolve(&conv(), &CapabilityId("x".into()), &object(), &vec![], false).unwrap_err(),
        CapabilityRoutingError::UnknownCapability
    );
}

#[test]
fn non_object_input_is_rejected() {
    let r = CapabilityRouter::new();
    let input = CapabilityInvocationInput { values: Json::Str("q".into()) };
    assert_eq!(
        r.resolve(&conv(), &CapabilityId("mail.read".into()), &input, &vec![], false).unwrap_err(),
        CapabilityRoutingError::InvalidInput
    );
}

#[test]
fn disabled_instance_is_unavailable() {
    let mut i = instance("issue.read");
    i.enabled = false;
    let r = CapabilityRouter::new();
    assert_eq!(
        r.resolve(&conv(), &CapabilityId("issue.search".into()), &object(), &vec![i], false).unwrap(),
        CapabilityRoutingOutcome::Unavailable
    );
}

#[test]
fn several_candidates_ask_in_label_order_and_choice_is_remembered() {
    let mut r = CapabilityRouter::new();
    let mut degraded = named("email.read", "Work");
    degraded.status = IntegrationStatus::Degraded { reason: IntegrationIssue::NetworkUnavailable };
    let mut admin_only = named("email.read", "Admin");
    admin_only.management = IntegrationManagement::AdministratorManaged;
    let items = vec![degraded, named("email.read", "Personal"), admin_only, named("issue.read", "Jira")];
    let cap = CapabilityId("mail.search".into());
    match r.resolve(&conv(), &cap, &object(), &items, false).unwrap() {
        CapabilityRoutingOutcome::ClarificationRequired { clarification } => {
            assert_eq!(clarification.prompt, "Choose an integration for Search mail");
            let labels: Vec<&str> = clarification.choices.iter().map(|c| c.label.as_str()).collect();
            assert_eq!(labels, vec!["Personal", "Work"]);
            assert!(clarification.choices.iter().all(|c| c.description == "Search mail"));
            assert_eq!(clarification.request_id.len(), 36);
        }
        other => panic!("expected clarification, got {:?}", other),
    }
    match r.resolve(&conv(), &cap, &object(), &items, true).unwrap() {
        CapabilityRoutingOutcome::ClarificationRequired { clarification } => {
            let labels: Vec<&str> = clarification.choices.iter().map(|c| c.label.as_str()).collect();
            assert_eq!(labels, vec!["Admin", "Personal", "Work"]);
        }
        other => panic!("expected clarification, got {:?}", other),
    }
    r.submit_choice(conv(), cap.clone(), items[0].id.clone());
    match r.resolve(&conv(), &cap, &object(), &items, false).unwrap() {
        CapabilityRoutingOutcome::Selected { route } => assert_eq!(route.integration_label, "Work"),
        other => panic!("expected Selected, got {:?}", other),
    }
    r.clear_preference(&conv(), &cap);
    assert!(matches!(
        r.resolve(&conv(), &cap, &object(), &items, false).unwrap(),
        CapabilityRoutingOutcome::ClarificationRequired { .. }
    ));
}

#[test]
fn stale_and_missing_routes_are_refused() {
    let r = CapabilityRouter::new();
    let items = vec![instance("page.read")];
    let route = CapabilityRoute {
        instance_id: items[0].id.clone(),
        integration_label: "Test".into(),
        capability_id: CapabilityId("documentation.read".into()),
        revision: 2,
    };
    assert_eq!(r.route_target(&items, &route), Ok(0));
    let mut moved = route.clone();
    moved.revision = 3;
    assert_eq!(r.route_target(&items, &moved), Err(CapabilityRoutingError::StaleRoute));
    let mut gone = route.clone();
    gone.instance_id = IntegrationInstanceId("nope".into());
    assert_eq!(r.route_target(&items, &gone), Err(CapabilityRoutingError::InstanceUnavailable));
    let p = r.provenance(&items[0], &route, 99);
    assert_eq!(p.retrieved_at, 99);
    assert_eq!(p.integration_label, "Test");
}

#[test]
fn registry_and_policy() {
    let all = StaticCapabilityRegistry::curated();
    assert_eq!(all.len(), 6);
    assert_eq!(all[3].description, "Read a mail message");
    let reg = StaticCapabilityRegistry;
    assert!(reg.get(&CapabilityId("documentation.search".into())).is_some());
    assert!(reg.get(&CapabilityId("page.read".into())).is_none());
    let policy = DefaultRoutingPolicy;
    let mut i = instance("issue.read");
    i.management = IntegrationManagement::AdministratorManaged;
    assert!(!policy.allows(&all[0], &i, false));
    assert!(policy.allows(&all[0], &i, true));
    assert!(label_le_exec("Abc", "Abd"));
    assert!(label_le_exec("Ab", "Abc"));
    assert!(!label_le_exec("b", "Abc"));
}
