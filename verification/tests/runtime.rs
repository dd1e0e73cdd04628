use ebpf_tracker::runtime::{
    cache_root_candidates, compose_file_name, compose_paths_in_ancestors, compose_paths_in_dir,
    container_cargo_target_dir, container_npm_cache_dir, embedded_runtime_dir,
    ensure_embedded_runtime, next_cache_root, normalized_command_name, parse_runtime_selection,
    resolve_compose_file_from_context, resolve_runtime_profile, runtime_env_assignment,
    ComposeDecision, ProbedPath, RuntimeAssetSource, RuntimeProfile, RuntimeSelection,
};

#[test]
fn runtime_selection_parser_accepts_supported_values() {
    assert_eq!(
        parse_runtime_selection("auto").expect("auto should parse"),
        RuntimeSelection::Auto
    );
    assert_eq!(
        parse_runtime_selection("rust").expect("rust should parse"),
        RuntimeSelection::Rust
    );
    assert_eq!(
        parse_runtime_selection("node").expect("node should parse"),
        RuntimeSelection::Node
    );
}

#[test]
fn runtime_selection_parser_rejects_unknown_values() {
    assert!(parse_runtime_selection("python").is_err());
}

#[test]
fn auto_runtime_detects_node_commands() {
    for command in [
        "npm",
        "npx",
        "pnpm",
        "yarn",
        "node",
        "nodejs",
        "/usr/local/bin/npm",
        "npm.cmd",
    ] {
        assert_eq!(
            resolve_runtime_profile(RuntimeSelection::Auto, &vec![command.to_string()]),
            RuntimeProfile::Node
        );
    }
}

#[test]
fn auto_runtime_defaults_to_rust_for_other_commands() {
    assert_eq!(
        resolve_runtime_profile(
            RuntimeSelection::Auto,
            &vec!["cargo".to_string(), "run".to_string()]
        ),
        RuntimeProfile::Rust
    );
    assert_eq!(
        resolve_runtime_profile(RuntimeSelection::Auto, &vec!["/bin/true".to_string()]),
        RuntimeProfile::Rust
    );
}

#[test]
fn explicit_runtime_selection_overrides_auto_detection() {
    assert_eq!(
        resolve_runtime_profile(RuntimeSelection::Node, &vec!["cargo".to_string()]),
        RuntimeProfile::Node
    );
    assert_eq!(
        resolve_runtime_profile(RuntimeSelection::Rust, &vec!["npm".to_string()]),
        RuntimeProfile::Rust
    );
}

#[test]
fn runtime_cache_dirs_are_stable_for_a_project() {
    let project_dir = "/tmp/payment-engine";

    assert_eq!(
        container_cargo_target_dir(project_dir),
        container_cargo_target_dir(project_dir)
    );
    assert_eq!(
        container_npm_cache_dir(project_dir),
        container_npm_cache_dir(project_dir)
    );
}

#[test]
fn runtime_cache_dirs_differ_between_projects() {
    let first = "/tmp/payment-engine";
    let second = "/tmp/session-io-demo";

    assert_ne!(
        container_cargo_target_dir(first),
        container_cargo_target_dir(second)
    );
    assert_ne!(
        container_npm_cache_dir(first),
        container_npm_cache_dir(second)
    );
}

#[test]
fn runtime_selection_rejection_names_the_value() {
    assert_eq!(
        parse_runtime_selection("python"),
        Err("unsupported runtime: python".to_string())
    );
    for selection in [RuntimeSelection::Auto, RuntimeSelection::Rust, RuntimeSelection::Node] {
        assert_eq!(parse_runtime_selection(selection.as_str()), Ok(selection));
    }
}

#[test]
fn command_names_drop_directories_extensions_and_case() {
    assert_eq!(normalized_command_name("/usr/local/bin/NPM.exe"), "npm");
    assert_eq!(normalized_command_name("yarnpkg.cmd.cmd"), "yarnpkg");
    assert_eq!(normalized_command_name("node.exe.cmd"), "node");
    assert_eq!(normalized_command_name("Cargo"), "cargo");
    assert_eq!(
        resolve_runtime_profile(RuntimeSelection::Auto, &vec!["Corepack".to_string()]),
        RuntimeProfile::Node
    );
    assert_eq!(
        resolve_runtime_profile(RuntimeSelection::Auto, &Vec::new()),
        RuntimeProfile::Rust
    );
}

#[test]
fn cache_dirs_are_sixteen_hex_digits_under_their_roots() {
    let cargo = container_cargo_target_dir("/work/app");
    let npm = container_npm_cache_dir("/work/app");
    let cargo_hash = cargo.strip_prefix("/cargo-target/").expect("cargo root");
    let npm_hash = npm.strip_prefix("/npm-cache/").expect("npm root");
    assert_eq!(cargo_hash.len(), 16);
    assert!(cargo_hash.chars().all(|c| c.is_ascii_hexdigit() && !c.is_ascii_uppercase()));
    assert_eq!(cargo_hash, npm_hash);
    assert_eq!(
        runtime_env_assignment("/work/app", RuntimeProfile::Rust),
        format!("CARGO_TARGET_DIR={cargo}")
    );
    assert_eq!(
        runtime_env_assignment("/work/app", RuntimeProfile::Node),
        format!("NPM_CONFIG_CACHE={npm}")
    );
}

fn probe(path: &str, is_file: bool) -> ProbedPath {
    ProbedPath {
        path: path.to_string(),
        is_file,
    }
}

#[test]
fn compose_search_prefers_environment_then_current_dir_then_ancestors() {
    let current = vec![probe("/p/docker-compose.bpftrace.yml", true)];
    let ancestors = vec![
        probe("/x/bin/docker-compose.bpftrace.yml", false),
        probe("/x/docker-compose.bpftrace.yml", true),
    ];
    match resolve_compose_file_from_context(Some(probe("/c.yml", true)), &current, &ancestors) {
        ComposeDecision::Resolved(r) => {
            assert_eq!(r.compose_file, "/c.yml");
            assert!(r.description().contains("EBPF_TRACKER_COMPOSE_FILE"));
        }
        other => panic!("unexpected {other:?}"),
    }
    match resolve_compose_file_from_context(Some(probe("/c.yml", false)), &current, &ancestors) {
        ComposeDecision::Failed(e) => assert_eq!(
            e,
            "compose file from EBPF_TRACKER_COMPOSE_FILE not found: /c.yml"
        ),
        other => panic!("unexpected {other:?}"),
    }
    match resolve_compose_file_from_context(None, &current, &ancestors) {
        ComposeDecision::Resolved(r) => {
            assert_eq!(r.compose_file, "/p/docker-compose.bpftrace.yml");
            assert!(r.description().contains("current dir"));
        }
        other => panic!("unexpected {other:?}"),
    }
    let missing = vec![probe("/p/docker-compose.bpftrace.yml", false)];
    match resolve_compose_file_from_context(None, &missing, &ancestors) {
        ComposeDecision::Resolved(r) => {
            assert_eq!(r.compose_file, "/x/docker-compose.bpftrace.yml");
            match &r.source {
                RuntimeAssetSource::ExecutableAncestor(p) => {
                    assert_eq!(p, "/x/docker-compose.bpftrace.yml")
                }
                other => panic!("unexpected {other:?}"),
            }
            assert!(r.description().contains("executable ancestor"));
        }
        other => panic!("unexpected {other:?}"),
    }
    assert!(matches!(
        resolve_compose_file_from_context(None, &missing, &Vec::new()),
        ComposeDecision::MaterializeEmbedded
    ));
}

#[test]
fn compose_candidates_follow_the_profile() {
    assert_eq!(compose_file_name(RuntimeProfile::Rust), "docker-compose.bpftrace.yml");
    assert_eq!(compose_file_name(RuntimeProfile::Node), "docker-compose.bpftrace.node.yml");
    assert_eq!(
        compose_paths_in_dir(RuntimeProfile::Node, "/work"),
        vec!["/work/docker-compose.bpftrace.node.yml".to_string()]
    );
    assert_eq!(
        compose_paths_in_ancestors(RuntimeProfile::Rust, "/opt/bin/tracker"),
        vec![
            "/opt/bin/tracker/docker-compose.bpftrace.yml".to_string(),
            "/opt/bin/docker-compose.bpftrace.yml".to_string(),
            "/opt/docker-compose.bpftrace.yml".to_string(),
            "/docker-compose.bpftrace.yml".to_string(),
        ]
    );
}

#[test]
fn embedded_runtime_goes_to_the_first_working_root() {
    let roots = vec!["/blocked".to_string(), "/cache".to_string()];
    let outcomes = vec![Err("failed to create /blocked".to_string()), Ok(())];
    let resolution = ensure_embedded_runtime(RuntimeProfile::Node, &roots, "1.2.3", &outcomes)
        .expect("second root works");
    assert_eq!(embedded_runtime_dir("/cache", "1.2.3"), "/cache/runtime-v1.2.3");
    assert_eq!(
        resolution.compose_file,
        "/cache/runtime-v1.2.3/docker-compose.bpftrace.node.yml"
    );
    match &resolution.source {
        RuntimeAssetSource::EmbeddedRuntime { cache_root } => assert_eq!(cache_root, "/cache"),
        other => panic!("unexpected {other:?}"),
    }
    assert!(resolution.description().contains("embedded runtime cache root"));
    let failures = vec![Err("a".to_string()), Err("b".to_string())];
    assert_eq!(
        ensure_embedded_runtime(RuntimeProfile::Rust, &roots, "1", &failures).err(),
        Some("failed to materialize runtime assets: a; b".to_string())
    );
}

#[test]
fn cache_roots_follow_the_environment() {
    assert_eq!(
        cache_root_candidates(Some("/c"), Some("/x"), Some("/h"), "/tmp"),
        vec!["/c".to_string()]
    );
    assert_eq!(
        cache_root_candidates(None, Some("/x"), Some("/h"), "/tmp"),
        vec![
            "/x/ebpf-tracker".to_string(),
            "/h/.cache/ebpf-tracker".to_string(),
            "/tmp/ebpf-tracker".to_string(),
        ]
    );
    assert_eq!(
        cache_root_candidates(None, None, None, "/tmp/"),
        vec!["/tmp/ebpf-tracker".to_string()]
    );
}

#[test]
fn command_names_follow_unix_path_components() {
    assert_eq!(normalized_command_name("/usr/bin/npm/"), "npm");
    assert_eq!(normalized_command_name("bin/npm/."), "npm");
    assert_eq!(normalized_command_name("bin/./npm//"), "npm");
    assert_eq!(normalized_command_name("/"), "/");
    assert_eq!(normalized_command_name("bin/.."), "bin/..");
    assert_eq!(normalized_command_name("."), ".");
}

#[test]
fn cache_roots_are_tried_until_one_works() {
    let roots = vec!["a".to_string(), "b".to_string(), "c".to_string()];
    let mut outcomes: Vec<Result<(), String>> = Vec::new();
    assert_eq!(next_cache_root(&roots, &outcomes), Some(0));
    outcomes.push(Err("blocked".to_string()));
    assert_eq!(next_cache_root(&roots, &outcomes), Some(1));
    outcomes.push(Ok(()));
    assert_eq!(next_cache_root(&roots, &outcomes), None);
    let failures = vec![Err("x".to_string()), Err("y".to_string()), Err("z".to_string())];
    assert_eq!(next_cache_root(&roots, &failures), None);
}
