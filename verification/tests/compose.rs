use ebpf_tracker::compose::{build_compose_command, ComposeRunConfig, TransportMode};
use ebpf_tracker::runtime::{container_cargo_target_dir, RuntimeProfile};

#[test]
fn compose_run_config_builds_explicit_command_shape() {
    let extra_env = vec![("DEMO".to_string(), "1".to_string())];
    let wrapped_command = vec!["cargo".to_string(), "run".to_string()];
    let command = build_compose_command(
        &ComposeRunConfig {
            compose_file: "/tmp/docker-compose.yml",
            runtime_override_file: Some("/tmp/docker-compose.override.yml"),
            project_dir: "/workspace/demo",
            runtime_profile: RuntimeProfile::Rust,
            transport_mode: TransportMode::Bpftrace,
            extra_env: &extra_env,
            probe_file: Some("/probes/custom.bt"),
            perf_events: None,
            wrapped_command: &wrapped_command,
        },
        false,
    );

    assert_eq!(command.program, "docker");
    assert_eq!(
        command.args,
        vec![
            "compose".to_string(),
            "-f".to_string(),
            "/tmp/docker-compose.yml".to_string(),
            "-f".to_string(),
            "/tmp/docker-compose.override.yml".to_string(),
            "run".to_string(),
            "--build".to_string(),
            "--rm".to_string(),
            "-e".to_string(),
            "EBPF_TRACKER_TRANSPORT=bpftrace".to_string(),
            "-e".to_string(),
            format!(
                "CARGO_TARGET_DIR={}",
                container_cargo_target_dir("/workspace/demo")
            ),
            "-e".to_string(),
            "EBPF_TRACKER_PROBE=/probes/custom.bt".to_string(),
            "-e".to_string(),
            "DEMO=1".to_string(),
            "bpftrace".to_string(),
            "cargo".to_string(),
            "run".to_string(),
        ]
    );
}

#[test]
fn compose_run_adds_perf_events_and_terminal_request() {
    let command = build_compose_command(
        &ComposeRunConfig {
            compose_file: "c.yml",
            runtime_override_file: None,
            project_dir: "/p",
            runtime_profile: RuntimeProfile::Node,
            transport_mode: TransportMode::Perf,
            extra_env: &Vec::new(),
            probe_file: None,
            perf_events: Some("execve,openat"),
            wrapped_command: &vec!["npm".to_string()],
        },
        true,
    );
    assert_eq!(command.project_dir, "/p");
    assert_eq!(command.args[0..6], ["compose", "-f", "c.yml", "run", "--build", "--rm"]);
    assert_eq!(command.args[7], "EBPF_TRACKER_TRANSPORT=perf");
    assert!(command.args[9].starts_with("NPM_CONFIG_CACHE=/npm-cache/"));
    assert_eq!(command.args[11], "EBPF_TRACKER_PERF_EVENTS=execve,openat");
    assert_eq!(command.args[13], "EBPF_TRACKER_INTERACTIVE_PTY=1");
    assert_eq!(command.args[14..], ["bpftrace", "npm"]);
}
