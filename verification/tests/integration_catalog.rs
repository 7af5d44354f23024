use steersman_core::integration_domain::{
    curated_integration_catalog, integration_instance_schema_version, IntegrationCatalogRepository,
    IntegrationCommandError, IntegrationDefinitionId, IntegrationIssue, IntegrationStatus,
    StaticIntegrationCatalogRepository,
};

#[test]
fn statuses_cover_transitions() {
    let statuses = [
        IntegrationStatus::NotConfigured,
        IntegrationStatus::Configuring,
        IntegrationStatus::Connecting,
        IntegrationStatus::Ready,
        IntegrationStatus::Degraded { reason: IntegrationIssue::NetworkUnavailable },
        IntegrationStatus::NeedsAttention { reason: IntegrationIssue::AuthenticationRequired },
        IntegrationStatus::Disabled,
        IntegrationStatus::Unsupported { reason: "platform".into() },
    ];
    assert_eq!(statuses[3].as_user_status(), "ready");
    assert_eq!(statuses[4].as_user_status(), "degraded");
    assert_eq!(statuses[5].as_user_status(), "needs_attention");
    assert_eq!(statuses[7].as_user_status(), "unsupported");
}

#[test]
fn unknown_definition_returns_typed_error() {
    let error = StaticIntegrationCatalogRepository
        .get_definition(&IntegrationDefinitionId("missing".into()))
        .unwrap_err();
    assert_eq!(error, IntegrationCommandError::DefinitionNotFound);
}

#[test]
fn catalog_entries() {
    let c = curated_integration_catalog();
    assert_eq!(c.len(), 3);
    assert_eq!(c[0].id.0, "gmail");
    assert!(c[0].setup_schema[1].secret);
    assert_eq!(c[1].capabilities.len(), 3);
    let jira = StaticIntegrationCatalogRepository
        .get_definition(&IntegrationDefinitionId("jira".into()))
        .unwrap();
    assert_eq!(jira.display_name, "Jira");
    assert_eq!(integration_instance_schema_version(), 1);
}

fn instance(definition_id: &str) -> steersman_core::integration_domain::IntegrationInstance {
    steersman_core::integration_domain::IntegrationInstance {
        version: integration_instance_schema_version(),
        id: steersman_core::integration_domain::IntegrationInstanceId(uuid::Uuid::new_v4().to_string()),
        definition_id: IntegrationDefinitionId(definition_id.into()),
        display_name: "Test".into(),
        status: IntegrationStatus::Ready,
        enabled: true,
        management: steersman_core::integration_domain::IntegrationManagement::UserManaged,
        configured_capabilities: vec![],
        created_at: 0,
        updated_at: 0,
    }
}

#[test]
fn definition_and_instance_have_different_identities() {
    let definition = IntegrationDefinitionId("gmail".into());
    let instance = instance("gmail");
    assert_eq!(instance.definition_id, definition);
    assert_ne!(instance.id.0, definition.0);
}

#[test]
fn instances_of_one_definition_do_not_conflict() {
    let first = instance("gmail");
    let second = instance("gmail");
    assert_eq!(first.definition_id, second.definition_id);
    assert_ne!(first.id, second.id);
}

#[test]
fn admin_dto_hides_secret_values() {
    let definition = curated_integration_catalog().remove(0);
    let field = definition.setup_schema[1].clone();
    assert!(field.secret);
    let present = vec![true; definition.setup_schema.len()];
    let dto = steersman_core::integration_service::admin_integration_dto(instance("gmail"), definition, &present);
    assert!(dto.configured_fields.iter().all(|f| f.value.is_none()));
    assert!(dto.configured_fields[1].configured);
}
