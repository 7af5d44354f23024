use steersman_core::gateway_table::{
    await_port_step, backend_ready, running_verdict, stop_step, ChildState, GatewayProcess,
    GatewayTable, StopStep, PORT_DEADLINE_MS, STOP_GRACE_MS,
};

fn process(key: &str, port: u16, token: &str, child: u32) -> GatewayProcess<u32> {
    GatewayProcess {
        child,
        port,
        profile_key: key.to_string(),
        session_token: token.to_string(),
    }
}

#[test]
fn kept_backend_is_found_until_removed() {
    let mut table: GatewayTable<u32> = GatewayTable::new();
    assert!(!table.contains("default"));
    assert_eq!(table.port("default"), None);
    table.insert(process("default", 41000, "tok-a", 1));
    table.insert(process("work", 41001, "tok-b", 2));
    assert!(table.contains("default"));
    assert_eq!(table.port("default"), Some(41000));
    assert_eq!(table.session_token("work"), Some("tok-b".to_string()));
    let removed = table.remove("default").unwrap();
    assert_eq!(removed.child, 1);
    assert_eq!(removed.port, 41000);
    assert!(!table.contains("default"));
    assert_eq!(table.port("work"), Some(41001));
    assert!(table.remove("default").is_none());
}

#[test]
fn keeping_again_replaces_the_earlier_backend() {
    let mut table: GatewayTable<u32> = GatewayTable::new();
    table.insert(process("default", 41000, "old", 1));
    table.insert(process("default", 42000, "new", 3));
    assert_eq!(table.port("default"), Some(42000));
    assert_eq!(table.session_token("default"), Some("new".to_string()));
    assert_eq!(table.remove("default").unwrap().child, 3);
    assert!(!table.contains("default"));
}

#[test]
fn port_wait_stops_on_announcement_exit_or_deadline() {
    assert_eq!(await_port_step(false, Some(41234), 100, PORT_DEADLINE_MS), Some(41234));
    assert_eq!(await_port_step(true, Some(41234), 100, PORT_DEADLINE_MS), Some(0));
    assert_eq!(await_port_step(false, None, PORT_DEADLINE_MS, PORT_DEADLINE_MS), Some(0));
    assert_eq!(await_port_step(false, None, 500, PORT_DEADLINE_MS), None);
    assert!(backend_ready(41234, true));
    assert!(!backend_ready(0, true));
    assert!(!backend_ready(41234, false));
}

#[test]
fn stopping_waits_then_kills() {
    assert_eq!(stop_step(ChildState::Exited, 0), StopStep::Done);
    assert_eq!(stop_step(ChildState::Unknown, 0), StopStep::Done);
    assert_eq!(stop_step(ChildState::Running, 100), StopStep::Wait);
    assert_eq!(stop_step(ChildState::Running, STOP_GRACE_MS), StopStep::ForceKill);
}

#[test]
fn running_check_forgets_exited_backends_only() {
    assert_eq!(running_verdict(ChildState::Running), (true, true));
    assert_eq!(running_verdict(ChildState::Exited), (false, false));
    assert_eq!(running_verdict(ChildState::Unknown), (false, true));
}

#[test]
fn removing_a_profile_hands_back_its_own_process() {
    let mut table: GatewayTable<u32> = GatewayTable::new();
    table.insert(process("a", 1, "ta", 101));
    table.insert(process("b", 2, "tb", 202));
    table.insert(process("c", 3, "tc", 303));
    table.insert(process("b", 4, "tb2", 404));
    let b = table.remove("b").unwrap();
    assert_eq!(b.child, 404);
    assert_eq!(table.remove("a").unwrap().child, 101);
    assert_eq!(table.remove("c").unwrap().child, 303);
    assert!(table.remove("b").is_none());
}
