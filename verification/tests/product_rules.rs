use steersman_core::briefing::get_cached_briefing;
use steersman_core::chat::{request_target, ConnectionMode, HistoryItem, SendMessageRequest, SessionTarget};
use steersman_core::conversation::{
    conversation_profile, conversation_status, create_error, first_status, runtime_error, send_error,
    ConversationService, ConversationStatus, ProductError, RuntimeFailure, SessionState, TransportFailure,
};
use steersman_core::desktop::remote_instance_infos;
use steersman_core::discovery::{find_local_interpreter, instance_infos, DetectedInstance};
use steersman_core::integration_domain::{
    CapabilityId, IntegrationDefinitionId, IntegrationInstance, IntegrationInstanceId,
    IntegrationManagement, IntegrationStatus,
};
use steersman_core::integration_service::{
    configure_next, configure_start, disable_effects, disable_record, enable_record, remove_effects,
    remove_next, ConfigureStep, IntegrationEffect, RemoveStep, RestorePlan,
};

fn instance(path: &str, kind: &str) -> DetectedInstance {
    DetectedInstance {
        path: path.into(),
        instance_type: kind.into(),
        version: "1.0".into(),
        gateway_running: false,
        gateway_port: None,
        active_profile: "default".into(),
        home_dir: None,
        label: None,
    }
}

#[test]
fn detected_instances_are_listed_for_the_connect_screen() {
    let found = vec![instance("/a/python", "hermes"), instance("/b/python", "steersman")];
    let infos = instance_infos(&found);
    assert_eq!(infos.len(), 2);
    assert_eq!(infos[1].path, "/b/python");
    assert_eq!(infos[1].instance, "steersman");
    assert!(infos.iter().all(|i| i.exists));
    assert_eq!(find_local_interpreter(&found), Some("/a/python".to_string()));
    assert_eq!(find_local_interpreter(&vec![]), None);
    let remote = remote_instance_infos(&vec![false, true, false, false, false, true]);
    assert_eq!(remote.len(), 6);
    assert_eq!(remote[1].path, "~/steersman/venv/bin/python");
    assert!(remote[1].exists && !remote[0].exists);
    assert_eq!(remote[5].instance, "system");
}

#[test]
fn cached_briefing_is_stale_only_past_its_age() {
    let b = get_cached_briefing(None, Some(("T".into(), "body".into(), 1000)), 1000 + 3600, 3600);
    assert_eq!(b.session_id, "smart_briefing:default");
    assert_eq!(b.title, "T");
    assert!(!b.stale);
    let b = get_cached_briefing(Some("work"), Some(("T".into(), "body".into(), 1000)), 1000 + 3601, 3600);
    assert_eq!(b.session_id, "smart_briefing:work");
    assert!(b.stale);
    let b = get_cached_briefing(None, None, 10, 3600);
    assert_eq!(b.text, "");
    assert_eq!(b.generated_at, 0);
    assert!(!b.stale);
}

#[test]
fn message_requests_choose_their_session() {
    let mut req = SendMessageRequest {
        text: "hi".into(),
        session_id: Some("".into()),
        conversation_id: Some("c1".into()),
        history: Some(vec![HistoryItem { role: "user".into(), content: "x".into() }]),
    };
    assert_eq!(request_target(&req), SessionTarget::Conversation("c1".into()));
    req.session_id = Some("s1".into());
    assert_eq!(request_target(&req), SessionTarget::Given("s1".into()));
    req.session_id = None;
    req.conversation_id = None;
    assert_eq!(request_target(&req), SessionTarget::Fresh);
}

#[test]
fn conversation_decisions() {
    assert_eq!(conversation_status(SessionState::Resuming), ConversationStatus::Resuming);
    assert_eq!(
        conversation_status(SessionState::ResumeFailed),
        ConversationStatus::Failed("session resume failed".into())
    );
    assert_eq!(first_status(&vec![None, Some(SessionState::Suspended), Some(SessionState::Active)]), Some(ConversationStatus::Suspended));
    assert_eq!(first_status(&vec![None, None, None]), None);
    assert_eq!(runtime_error(RuntimeFailure::Timeout), ProductError::Timeout);
    assert_eq!(runtime_error(RuntimeFailure::Other("down".into())), ProductError::RuntimeUnavailable("down".into()));
    assert_eq!(create_error(TransportFailure::ReadyTimeout), ProductError::Timeout);
    assert_eq!(create_error(TransportFailure::Other("x".into())), ProductError::RuntimeUnavailable("x".into()));
    assert_eq!(send_error(TransportFailure::RpcTimeout), ProductError::Timeout);
    assert_eq!(send_error(TransportFailure::Other("x".into())), ProductError::SendFailed("x".into()));
    assert_eq!(conversation_profile(Some("".into())), None);
    assert_eq!(conversation_profile(Some("work".into())), Some("work".to_string()));
    let svc = ConversationService::new(1, 2, 3);
    assert_eq!(*svc.supervisor_for_mode(ConnectionMode::Remote), 2);
    assert_eq!(*svc.supervisor_for_mode(ConnectionMode::Ssh), 3);
}

#[test]
fn configuration_runs_forward_then_rolls_back_on_failure() {
    let (mut run, mut step) = configure_start(1, false, RestorePlan::RemoveNew);
    let mut seen = vec![];
    let mut outcomes = vec![true, true, false].into_iter();
    loop {
        match step {
            ConfigureStep::Perform(e) => {
                seen.push(e);
                let ok = outcomes.next().unwrap_or(false);
                let (r, s) = configure_next(run, ok);
                run = r;
                step = s;
            }
            other => {
                assert_eq!(other, ConfigureStep::Failed);
                break;
            }
        }
    }
    assert_eq!(
        seen,
        vec![
            IntegrationEffect::StoreSecret(0),
            IntegrationEffect::CreateRecord,
            IntegrationEffect::RuntimeConfigure,
            IntegrationEffect::RuntimeStop,
            IntegrationEffect::DeleteSecrets,
            IntegrationEffect::DeleteRecord,
        ]
    );
    let (mut run, mut step) = configure_start(0, true, RestorePlan::SavePrevious { delete_secrets: false });
    let mut n = 0;
    while let ConfigureStep::Perform(_) = step {
        let (r, s) = configure_next(run, true);
        run = r;
        step = s;
        n += 1;
    }
    assert_eq!(n, 4);
    assert_eq!(step, ConfigureStep::Succeeded);
}

#[test]
fn random_ids_are_version_four_uuids() {
    for _ in 0..20 {
        let id = steersman_core::ids::new_uuid_text();
        let c: Vec<char> = id.chars().collect();
        assert_eq!(c.len(), 36);
        assert_eq!(c[8], '-');
        assert_eq!(c[14], '4');
        assert!(matches!(c[19], '8' | '9' | 'a' | 'b'), "{}", id);
        assert!(id.chars().all(|x| x == '-' || x.is_ascii_hexdigit() && !x.is_ascii_uppercase()));
        let short = steersman_core::ids::new_short_id();
        assert_eq!(short.len(), 6);
    }
}

#[test]
fn removal_stops_at_the_first_failure() {
    let effects = remove_effects();
    assert_eq!(effects[0], IntegrationEffect::RuntimeStop);
    assert_eq!(remove_next(0, false), RemoveStep::Failed);
    assert_eq!(remove_next(0, true), RemoveStep::Perform(1, IntegrationEffect::DeleteSecrets));
    assert_eq!(remove_next(1, true), RemoveStep::Perform(2, IntegrationEffect::DeleteRecord));
    assert_eq!(remove_next(2, true), RemoveStep::Removed);
    assert_eq!(remove_next(1, false), RemoveStep::Failed);
}

#[test]
fn session_tokens_are_url_safe_and_43_long() {
    let t = steersman_core::gateway::generate_session_token();
    assert_eq!(t.len(), 43);
    assert!(t.chars().all(|c| c.is_ascii_alphanumeric() || c == '-' || c == '_'));
}

#[test]
fn disabling_twice_changes_the_record_once() {
    let inst = IntegrationInstance {
        version: 1,
        id: IntegrationInstanceId("one".into()),
        definition_id: IntegrationDefinitionId("gmail".into()),
        display_name: "one".into(),
        status: IntegrationStatus::Ready,
        enabled: true,
        management: IntegrationManagement::UserManaged,
        configured_capabilities: vec![CapabilityId("email.read".into())],
        created_at: 1,
        updated_at: 2,
    };
    assert_eq!(disable_effects(inst.enabled).len(), 2);
    let once = disable_record(inst, 10);
    assert!(!once.enabled);
    assert_eq!(once.status, IntegrationStatus::Disabled);
    assert_eq!(once.updated_at, 10);
    assert!(disable_effects(once.enabled).is_empty());
    let twice = disable_record(once.clone(), 20);
    assert_eq!(twice, once);
    let back = enable_record(twice, IntegrationStatus::Ready, 30);
    assert!(back.enabled);
    assert_eq!(back.status, IntegrationStatus::Ready);
}
