use steersman_core::discovery::{
    active_profile, agent_bin, choose_home, fallback_candidates, gateway_ports, gateway_status,
    infer_kind_from_dir, instance_label, instance_version, is_agent_launcher, leading_candidates,
    local_launcher, primary_instance, ps_shows_gateway, resolve_interpreter, select_candidates,
    DetectedInstance, HomeChoice, HostOs, InterpreterChoice,
};

fn parts(c: &[&str]) -> Vec<String> {
    c.iter().map(|s| s.to_string()).collect()
}

fn instance(path: &str, running: bool, home: Option<&str>) -> DetectedInstance {
    DetectedInstance {
        path: path.into(),
        instance_type: "hermes".into(),
        version: "1.0".into(),
        gateway_running: running,
        gateway_port: if running { Some(8642) } else { None },
        active_profile: "default".into(),
        home_dir: home.map(String::from),
        label: None,
    }
}

#[test]
fn linux_candidates_start_with_home_venvs_then_opt() {
    let c = leading_candidates(HostOs::Linux, "/home/u", None, None);
    assert_eq!(c.len(), 14);
    assert_eq!(c[0].parts, parts(&["/home/u", "steersman", "bin", "python"]));
    assert_eq!(c[0].kind, "steersman");
    assert_eq!(c[6].parts, parts(&["/home/u", ".hermes/hermes-agent", "bin", "python"]));
    assert_eq!(c[6].kind, "hermes-agent");
    assert_eq!(c[11].parts, parts(&["/opt/hermes", "bin", "python"]));
    assert_eq!(c[13].kind, "autolycus");
}

#[test]
fn macos_candidates_add_library_bundles_and_homebrew() {
    let c = leading_candidates(HostOs::MacOs, "/Users/u", None, None);
    assert_eq!(c.len(), 17);
    assert_eq!(c[11].parts, parts(&["/Users/u", "Library/Штурман", "bin", "python"]));
    assert_eq!(c[15].parts, parts(&["/opt/homebrew/bin/python3"]));
    assert_eq!(c[16].kind, "system");
}

#[test]
fn windows_candidates_cover_app_data_and_program_files() {
    let c = leading_candidates(HostOs::Windows, "C:\\Users\\u", Some("R"), Some("L"));
    assert_eq!(c.len(), 11 + 8 + 8 + 3 + 3);
    assert_eq!(c[0].parts, parts(&["C:\\Users\\u", "steersman", "Scripts", "python.exe"]));
    assert_eq!(c[11].parts, parts(&["R", "Steersman", "Scripts", "python.exe"]));
    assert_eq!(c[19].parts, parts(&["L", "Steersman", "Scripts", "python.exe"]));
    assert_eq!(c[14].parts, parts(&["R", "hermes\\hermes-agent\\venv", "Scripts", "python.exe"]));
    assert_eq!(c[32].parts, parts(&["C:\\Program Files\\Autolycus\\venv", "Scripts", "python.exe"]));
    let without_data = leading_candidates(HostOs::Windows, "C:\\Users\\u", None, Some("L"));
    assert_eq!(without_data.len(), 11 + 8 + 3 + 3);
}

#[test]
fn launchers_and_fallbacks() {
    assert_eq!(agent_bin("hermes", HostOs::Windows), "hermes.exe");
    assert_eq!(agent_bin("hermes", HostOs::Linux), "hermes");
    assert_eq!(local_launcher(HostOs::Linux, "/home/u", "steersman"), parts(&["/home/u", ".local/bin", "steersman"]));
    assert_eq!(
        local_launcher(HostOs::Windows, "C:\\u", "hermes"),
        parts(&["C:\\u", "AppData\\Local\\Programs", "hermes.exe"])
    );
    assert_eq!(fallback_candidates(HostOs::Windows)[0].parts, parts(&["python.exe"]));
    let unix = fallback_candidates(HostOs::MacOs);
    assert_eq!(unix.len(), 2);
    assert_eq!(unix[1].parts, parts(&["/usr/bin/python3"]));
}

#[test]
fn project_kind_goes_by_name_then_package() {
    assert_eq!(infer_kind_from_dir("my-autolycus-fork", false, true), "autolycus");
    assert_eq!(infer_kind_from_dir("steersman-dev", true, false), "steersman");
    assert_eq!(infer_kind_from_dir("hermes2", true, true), "hermes");
    assert_eq!(infer_kind_from_dir("work", true, true), "autolycus");
    assert_eq!(infer_kind_from_dir("work", false, true), "steersman");
    assert_eq!(infer_kind_from_dir("work", false, false), "hermes");
}

#[test]
fn each_existing_path_is_probed_once() {
    let paths = parts(&["/a", "/b", "/a", "/c", "/b"]);
    let exists = vec![true, false, true, true, true];
    assert_eq!(select_candidates(&paths, &exists), vec![0, 3, 4]);
}

#[test]
fn version_comes_from_the_first_probe_with_output() {
    assert_eq!(instance_version(&vec![None, Some("  \n".into()), Some(" Hermes 0.9.1\n".into())]), "Hermes 0.9.1");
    assert_eq!(instance_version(&vec![None, None, None]), "unknown");
    assert_eq!(instance_version(&Vec::new()), "unknown");
}

#[test]
fn gateway_status_prefers_ports_then_process_listing() {
    assert_eq!(gateway_ports(), vec![8642, 8643, 8644, 8645]);
    let listing = "root 1 init\nu 42 /v/bin/python -m hermes gateway run\n";
    assert!(ps_shows_gateway(listing, "python"));
    assert!(!ps_shows_gateway(listing, "python3"));
    assert_eq!(gateway_status(Some(8644), true, None, "python"), (true, Some(8644)));
    assert_eq!(gateway_status(None, true, Some(listing), "python"), (true, Some(8642)));
    assert_eq!(gateway_status(None, false, Some(listing), "python"), (false, None));
    assert_eq!(gateway_status(None, true, None, "python"), (false, None));
}

#[test]
fn launchers_are_resolved_to_an_interpreter() {
    assert!(is_agent_launcher("hermes"));
    assert!(is_agent_launcher("steersman.exe"));
    assert!(is_agent_launcher("autolycus.exe.exe"));
    assert!(!is_agent_launcher("python3"));
    assert_eq!(resolve_interpreter(false, true, true, true, None), InterpreterChoice::Itself);
    assert_eq!(resolve_interpreter(true, true, true, true, None), InterpreterChoice::Sibling);
    assert_eq!(resolve_interpreter(true, false, true, true, None), InterpreterChoice::VenvPython);
    assert_eq!(
        resolve_interpreter(true, false, true, false, Some("/usr/bin/python3".into())),
        InterpreterChoice::OnPath("/usr/bin/python3".into())
    );
    assert_eq!(resolve_interpreter(true, false, false, true, None), InterpreterChoice::Itself);
}

#[test]
fn home_is_searched_above_then_conventionally() {
    assert_eq!(choose_home(&vec![false, true, true], &vec![true]), HomeChoice::Above(1));
    assert_eq!(choose_home(&vec![false, false, false, false, false, true], &vec![false, true]), HomeChoice::Conventional(1));
    assert_eq!(choose_home(&Vec::new(), &vec![false]), HomeChoice::Unknown);
    assert_eq!(instance_label("autolycus", "x"), "Autolycus — x");
    assert_eq!(instance_label("steersman", ".steersman"), "Штурман — .steersman");
    assert_eq!(instance_label("hermes-agent", ".hermes"), "Hermes — .hermes");
    assert_eq!(instance_label("system", ".hermes"), ".hermes");
}

#[test]
fn active_profile_prefers_environment_then_files() {
    assert_eq!(active_profile(Some("work"), &vec![Some("home".into())]), "work");
    assert_eq!(active_profile(Some(""), &vec![None, Some("  travel\n".into())]), "travel");
    assert_eq!(active_profile(None, &vec![Some("   ".into())]), "default");
}

#[test]
fn primary_instance_prefers_running_then_homed() {
    let a = instance("/a", false, None);
    let b = instance("/b", false, Some("/h"));
    let c = instance("/c", true, None);
    assert_eq!(primary_instance(&vec![a.clone(), b.clone(), c.clone()]), Some(2));
    assert_eq!(primary_instance(&vec![a.clone(), b.clone()]), Some(1));
    assert_eq!(primary_instance(&vec![a.clone()]), Some(0));
    assert_eq!(primary_instance(&Vec::new()), None);
}
