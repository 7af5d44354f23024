use steersman_core::integration_service::{
    configure_effects, disable_effects, enable_effects, refresh_effects, remove_effects,
    restore_plan, rollback_effects, IntegrationEffect, RestorePlan,
};


#[test]
fn configure_orders_secrets_then_record_runtime_and_health() {
    assert_eq!(
        configure_effects(2, false),
        vec![IntegrationEffect::StoreSecret(0), IntegrationEffect::StoreSecret(1), IntegrationEffect::CreateRecord, IntegrationEffect::RuntimeConfigure, IntegrationEffect::CheckHealth, IntegrationEffect::SaveRecord]
    );
    assert_eq!(configure_effects(0, true), vec![IntegrationEffect::SaveRecord, IntegrationEffect::RuntimeConfigure, IntegrationEffect::CheckHealth, IntegrationEffect::SaveRecord]);
}

#[test]
fn rollback_depends_on_what_existed_before() {
    assert_eq!(restore_plan(false, &vec![true]), RestorePlan::RemoveNew);
    assert_eq!(rollback_effects(RestorePlan::RemoveNew), vec![IntegrationEffect::RuntimeStop, IntegrationEffect::DeleteSecrets, IntegrationEffect::DeleteRecord]);
    let keep = restore_plan(true, &vec![false, true]);
    assert_eq!(keep, RestorePlan::SavePrevious { delete_secrets: false });
    assert_eq!(rollback_effects(keep), vec![IntegrationEffect::SavePreviousRecord]);
    let wipe = restore_plan(true, &vec![false, false]);
    assert_eq!(rollback_effects(wipe), vec![IntegrationEffect::SavePreviousRecord, IntegrationEffect::DeleteSecrets]);
}

#[test]
fn enable_disable_refresh_and_remove_are_idempotent_where_they_should_be() {
    assert_eq!(enable_effects(false), vec![IntegrationEffect::RuntimeStart, IntegrationEffect::CheckHealth, IntegrationEffect::SaveRecord]);
    assert!(enable_effects(true).is_empty());
    assert_eq!(disable_effects(true), vec![IntegrationEffect::RuntimeStop, IntegrationEffect::SaveRecord]);
    assert!(disable_effects(false).is_empty());
    assert_eq!(refresh_effects(true), vec![IntegrationEffect::CheckHealth, IntegrationEffect::SaveRecord]);
    assert!(refresh_effects(false).is_empty());
    assert_eq!(remove_effects(), vec![IntegrationEffect::RuntimeStop, IntegrationEffect::DeleteSecrets, IntegrationEffect::DeleteRecord]);
}
