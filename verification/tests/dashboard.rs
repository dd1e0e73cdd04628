use ebpf_tracker::compose::TransportMode;
use ebpf_tracker::dashboard::{
    build_demo_args_for_dashboard, build_tracker_args_for_dashboard, dashboard_viewer_args,
    exit_code, parse_dashboard_url, CliArgs, DashboardUrlWatch, DemoArgs, EmitMode,
};
use ebpf_tracker::intelligence::IntelligenceOptions;
use ebpf_tracker::runtime::RuntimeSelection;

#[test]
fn tracker_arguments_force_jsonl_and_logging() {
    let cli = CliArgs {
        probe_file: Some("probes/x.bt".to_string()),
        config_path: None,
        transport_mode: TransportMode::Perf,
        runtime_selection: RuntimeSelection::Node,
        intelligence: IntelligenceOptions::default(),
        command: vec!["npm".to_string(), "test".to_string()],
    };
    let args = build_tracker_args_for_dashboard(&cli);
    assert_eq!(
        args,
        vec![
            "--probe", "probes/x.bt", "--log-enable", "--emit", "jsonl", "--transport", "perf",
            "--runtime", "node", "--", "npm", "test",
        ]
        .into_iter()
        .map(String::from)
        .collect::<Vec<_>>()
    );
}

#[test]
fn demo_arguments_carry_list_and_example() {
    let mut intelligence = IntelligenceOptions::default();
    intelligence.enabled = true;
    let demo = DemoArgs {
        transport_mode: TransportMode::Bpftrace,
        list_examples: true,
        example_name: Some("session-io-demo".to_string()),
        intelligence,
    };
    assert_eq!(
        build_demo_args_for_dashboard(&demo),
        vec![
            "demo", "--log-enable", "--emit", "jsonl", "--transport", "bpftrace", "--list",
            "session-io-demo", "--intelligence-dataset",
        ]
        .into_iter()
        .map(String::from)
        .collect::<Vec<_>>()
    );
    assert_eq!(EmitMode::Raw.as_str(), "raw");
}

#[test]
fn viewer_is_started_with_port_and_tracker() {
    assert_eq!(
        dashboard_viewer_args("viewer.js", 43118, "/bin/tracker", &vec!["cargo".to_string()]),
        vec!["viewer.js", "--port", "43118", "--", "/bin/tracker", "cargo"]
            .into_iter()
            .map(String::from)
            .collect::<Vec<_>>()
    );
}

#[test]
fn viewer_address_is_read_from_its_banner() {
    assert_eq!(
        parse_dashboard_url("  live trace viewer on http://127.0.0.1:43118 \n").as_deref(),
        Some("http://127.0.0.1:43118")
    );
    assert_eq!(parse_dashboard_url("viewer on http://x"), None);
}

#[test]
fn address_is_opened_once_across_chunks() {
    let mut watch = DashboardUrlWatch::new();
    assert_eq!(watch.feed(&b"booting\nlive trace viewer on ht".to_vec()), None);
    assert_eq!(
        watch.feed(&b"tp://a\nlive trace viewer on http://b\n".to_vec()).as_deref(),
        Some("http://a")
    );
    assert!(watch.opened);
    assert_eq!(watch.feed(&b"live trace viewer on http://c\n".to_vec()), None);
    assert_eq!(watch.finish(), None);
}

#[test]
fn unfinished_last_line_is_read_at_the_end() {
    let mut watch = DashboardUrlWatch::new();
    assert_eq!(watch.feed(&b"\xffnoise\nlive trace viewer on http://d".to_vec()), None);
    assert_eq!(watch.pending, b"live trace viewer on http://d".to_vec());
    assert_eq!(watch.finish().as_deref(), Some("http://d"));
}

#[test]
fn exit_codes_follow_status_or_signal() {
    assert_eq!(exit_code(Some(3), Some(9)), 3);
    assert_eq!(exit_code(None, Some(9)), 137);
    assert_eq!(exit_code(None, None), 1);
}
