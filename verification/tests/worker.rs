use ebpf_tracker::analysis::ModelProvider;
use ebpf_tracker::intelligence::IntelligenceOptions;
use ebpf_tracker::worker::{
    non_empty_string, resolve_model_label, start_worker, summary_excerpt, worker_step,
    WorkerContext, WorkerEvent, WorkerNext, WorkerPhase,
};

fn context() -> WorkerContext {
    let options = IntelligenceOptions::default();
    WorkerContext::new(
        &options,
        &vec!["cargo".to_string(), "run".to_string()],
        Some("session-io-demo"),
        "bpftrace",
        "auto",
        1700000000123,
    )
}

#[test]
fn context_names_the_live_run() {
    let ctx = context();
    assert_eq!(ctx.run_id, "run-1700000000123-live");
    assert_eq!(ctx.dataset_dir, "datasets/run-1700000000123-live");
    assert_eq!(ctx.analysis_dir, "datasets/run-1700000000123-live/analysis");
    assert_eq!(
        ctx.status_path,
        "datasets/run-1700000000123-live/analysis/status.json"
    );
    assert_eq!(ctx.provider, ModelProvider::LmStudio);
    assert_eq!(ctx.model_label, "qwen/qwen3.5-9b");
    assert_eq!(ctx.command, "cargo run");
    assert_eq!(ctx.test_name.as_deref(), Some("session-io-demo-intelligence"));
}

#[test]
fn capture_reports_first_four_records_then_every_thirty_two() {
    let ctx = context();
    let (mut state, first) = start_worker(&ctx, Vec::<u32>::new(), 10);
    assert_eq!(first.phase, "capturing");
    assert_eq!(first.buffered_records, 0);
    assert_eq!(
        first.message.as_deref(),
        Some("buffering live trace records for the dataset worker")
    );
    let mut reported = Vec::new();
    for n in 1..=70usize {
        let step = worker_step(&ctx, &mut state, WorkerEvent::Record(n as u32), 20);
        assert!(matches!(step.next, WorkerNext::AwaitMessage));
        if let Some(status) = step.status {
            assert_eq!(status.buffered_records, n);
            assert_eq!(
                status.message,
                Some(format!(
                    "captured {n} records; waiting for the traced command to finish"
                ))
            );
            reported.push(n);
        }
    }
    assert_eq!(reported, vec![1, 2, 3, 4, 36, 68]);
    assert_eq!(state.records, (1..=70u32).collect::<Vec<_>>());
}

#[test]
fn finished_run_is_written_then_analysed() {
    let ctx = context();
    let (mut state, _) = start_worker(&ctx, vec![7u32, 8], 1);
    let step = worker_step(
        &ctx,
        &mut state,
        WorkerEvent::Finish {
            exit_code: 0,
            exit_signal: None,
        },
        2,
    );
    let status = step.status.expect("writing status");
    assert_eq!(status.phase, "writing_dataset");
    assert_eq!(status.buffered_records, 2);
    assert!(matches!(step.next, WorkerNext::WriteDataset { exit_code: 0, .. }));
    assert_eq!(state.phase, WorkerPhase::WritingDataset);
    assert_eq!(state.records, vec![7, 8]);
    let step = worker_step(&ctx, &mut state, WorkerEvent::DatasetWritten { total_records: 5 }, 3);
    let status = step.status.expect("analyzing status");
    assert_eq!(status.phase, "analyzing");
    assert_eq!(status.buffered_records, 5);
    assert!(matches!(step.next, WorkerNext::Analyze));
    let step = worker_step(
        &ctx,
        &mut state,
        WorkerEvent::AnalysisCompleted {
            model: "qwen".to_string(),
            markdown: "a.md".to_string(),
            json: "a.json".to_string(),
            excerpt: Some("summary".to_string()),
        },
        4,
    );
    let status = step.status.expect("completed status");
    assert_eq!(status.phase, "completed");
    assert_eq!(status.model, "qwen");
    assert_eq!(status.buffered_records, 5);
    assert_eq!(status.analysis_markdown.as_deref(), Some("a.md"));
    assert_eq!(status.summary_excerpt.as_deref(), Some("summary"));
    assert_eq!(status.updated_unix_ms, 4);
    assert!(matches!(step.next, WorkerNext::Stop(Ok(()))));
    assert_eq!(state.phase, WorkerPhase::Finished);
}

#[test]
fn failures_stop_the_worker() {
    let ctx = context();
    let (mut state, _) = start_worker(&ctx, Vec::<u32>::new(), 1);
    let step = worker_step(&ctx, &mut state, WorkerEvent::ChannelClosed, 2);
    let status = step.status.expect("failed status");
    assert_eq!(status.phase, "failed");
    assert_eq!(
        status.error.as_deref(),
        Some("intelligence channel closed before the run finished")
    );
    match step.next {
        WorkerNext::Stop(Err(e)) => {
            assert_eq!(e, "intelligence channel closed before the run finished")
        }
        other => panic!("unexpected {other:?}"),
    }
    let (mut state, _) = start_worker(&ctx, Vec::<u32>::new(), 1);
    worker_step(
        &ctx,
        &mut state,
        WorkerEvent::Finish {
            exit_code: 1,
            exit_signal: Some("SIGINT".to_string()),
        },
        2,
    );
    let step = worker_step(
        &ctx,
        &mut state,
        WorkerEvent::DatasetFailed {
            error: "disk full".to_string(),
        },
        3,
    );
    assert!(step.status.is_none());
    assert!(matches!(step.next, WorkerNext::Stop(Err(ref e)) if e == "disk full"));
    let (mut state, _) = start_worker(&ctx, Vec::<u32>::new(), 1);
    worker_step(
        &ctx,
        &mut state,
        WorkerEvent::Finish {
            exit_code: 0,
            exit_signal: None,
        },
        2,
    );
    worker_step(&ctx, &mut state, WorkerEvent::DatasetWritten { total_records: 3 }, 3);
    let step = worker_step(
        &ctx,
        &mut state,
        WorkerEvent::AnalysisFailed {
            error: "timeout".to_string(),
        },
        4,
    );
    let status = step.status.expect("failed status");
    assert_eq!(status.message.as_deref(), Some("dataset analysis failed"));
    assert_eq!(status.error.as_deref(), Some("timeout"));
    assert_eq!(status.buffered_records, 3);
}

#[test]
fn excerpts_and_labels() {
    assert_eq!(summary_excerpt("  \n"), None);
    assert_eq!(summary_excerpt("  short \n").as_deref(), Some("short"));
    let long = "x".repeat(901);
    let excerpt = summary_excerpt(&long).expect("excerpt");
    assert_eq!(excerpt.len(), 903);
    assert!(excerpt.ends_with("x..."));
    assert_eq!(summary_excerpt(&"y".repeat(900)).map(|e| e.len()), Some(900));
    assert_eq!(non_empty_string("  cargo run "), Some("cargo run".to_string()));
    assert_eq!(non_empty_string(" \t"), None);
    let mut options = IntelligenceOptions::default();
    assert_eq!(resolve_model_label(&options), "qwen/qwen3.5-9b");
    options.model = Some("llama".to_string());
    assert_eq!(resolve_model_label(&options), "llama");
}
