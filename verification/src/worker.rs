//! The decisions of the intelligence worker: it buffers the records of a
//! live session, reports its progress, and once the traced command has
//! finished has the dataset written and analysed.  The caller performs the
//! writing, the analysis and the publishing of each status, and hands the
//! outcome back as the next event.

use vstd::prelude::*;
use vstd::string::StringExecFns;

use crate::analysis::{option_view, provider_name, ModelProvider, DEFAULT_LM_STUDIO_MODEL};
use crate::intelligence::IntelligenceOptions;
use crate::text::{
    chars_of, concat, decimal, decimal_string, join_path, join_lines, join_strings, path_join,
    string_of, sub_chars, trim, trim_ws, views,
};

verus! {

/// The model named in statuses before an analysis has answered.
pub open spec fn model_label(model: Option<Seq<char>>) -> Seq<char> {
    match model {
        Some(m) => m,
        None => DEFAULT_LM_STUDIO_MODEL@,
    }
}

pub fn resolve_model_label(options: &IntelligenceOptions) -> (r: String)
    ensures
        r@ == model_label(option_view(options.model)),
{
    match &options.model {
        Some(m) => m.clone(),
        None => String::from_str(DEFAULT_LM_STUDIO_MODEL),
    }
}

/// The text without surrounding white space, if anything is left.
pub open spec fn non_empty_text(value: Seq<char>) -> Option<Seq<char>> {
    if trim_ws(value).len() == 0 {
        None
    } else {
        Some(trim_ws(value))
    }
}

pub fn non_empty_string(value: &str) -> (r: Option<String>)
    ensures
        option_view(r) == non_empty_text(value@),
{
    let t = trim(value);
    if chars_of(t.as_str()).len() == 0 {
        None
    } else {
        Some(t)
    }
}

/// Number of characters of an analysis shown in the final status.
pub const SUMMARY_EXCERPT_CHARS: usize = 900;

/// The opening of an analysis: its trimmed text cut to the excerpt length,
/// with `...` when it was cut; nothing when the text is blank.
pub open spec fn excerpt_of(text: Seq<char>) -> Option<Seq<char>> {
    let t = trim_ws(text);
    if t.len() == 0 {
        None
    } else if t.len() > SUMMARY_EXCERPT_CHARS {
        Some(t.take(SUMMARY_EXCERPT_CHARS as int) + "..."@)
    } else {
        Some(t)
    }
}

pub fn summary_excerpt(text: &str) -> (r: Option<String>)
    ensures
        option_view(r) == excerpt_of(text@),
{
    let t = trim(text);
    let v = chars_of(t.as_str());
    if v.len() == 0 {
        return None;
    }
    if v.len() > SUMMARY_EXCERPT_CHARS {
        let head = sub_chars(&v, 0, SUMMARY_EXCERPT_CHARS);
        let mut e = string_of(&head);
        e.append("...");
        assert(v@.subrange(0, SUMMARY_EXCERPT_CHARS as int) =~= v@.take(
            SUMMARY_EXCERPT_CHARS as int,
        ));
        Some(e)
    } else {
        Some(t)
    }
}

/// What stays fixed while a worker runs.
#[derive(Debug)]
pub struct WorkerContext {
    pub run_id: String,
    pub dataset_dir: String,
    pub analysis_dir: String,
    pub status_path: String,
    pub provider: ModelProvider,
    pub model_label: String,
    pub command: String,
    pub test_name: Option<String>,
    pub transport: String,
    pub runtime: String,
}

pub open spec fn live_run_id(now_ms: nat) -> Seq<char> {
    "run-"@ + decimal(now_ms) + "-live"@
}

impl WorkerContext {
    /// The context of a worker started at `now_ms` for a traced command: the
    /// run is named after the start time, its dataset lives under the output
    /// root and its status file in the dataset's analysis directory.
    pub fn new(
        options: &IntelligenceOptions,
        command_words: &Vec<String>,
        demo_name: Option<&str>,
        transport: &str,
        runtime: &str,
        now_ms: u64,
    ) -> (c: Self)
        ensures
            c.run_id@ == live_run_id(now_ms as nat),
            c.dataset_dir@ == path_join(options.output_root@, live_run_id(now_ms as nat)),
            c.analysis_dir@ == path_join(c.dataset_dir@, "analysis"@),
            c.status_path@ == path_join(c.analysis_dir@, "status.json"@),
            c.provider == options.provider,
            c.model_label@ == model_label(option_view(options.model)),
            c.command@ == join_lines(views(command_words@), " "@),
            option_view(c.test_name) == match demo_name {
                Some(d) => Some(d@ + "-intelligence"@),
                None => None,
            },
            c.transport@ == transport@,
            c.runtime@ == runtime@,
    {
        let mut run_id = String::from_str("run-");
        run_id.append(decimal_string(now_ms).as_str());
        run_id.append("-live");
        let dataset_dir = join_path(options.output_root.as_str(), run_id.as_str());
        let analysis_dir = join_path(dataset_dir.as_str(), "analysis");
        let status_path = join_path(analysis_dir.as_str(), "status.json");
        let test_name = match demo_name {
            Some(d) => Some(concat(d, "-intelligence")),
            None => None,
        };
        WorkerContext {
            run_id,
            dataset_dir,
            analysis_dir,
            status_path,
            provider: options.provider,
            model_label: resolve_model_label(options),
            command: join_strings(command_words, " "),
            test_name,
            transport: String::from_str(transport),
            runtime: String::from_str(runtime),
        }
    }
}

/// A progress report of the worker, as written to its status file.
#[derive(Debug)]
pub struct IntelligenceStatus {
    pub phase: String,
    pub run_id: String,
    pub dataset_dir: String,
    pub analysis_dir: String,
    pub provider: String,
    pub model: String,
    pub buffered_records: usize,
    pub updated_unix_ms: u64,
    pub message: Option<String>,
    pub analysis_markdown: Option<String>,
    pub analysis_json: Option<String>,
    pub summary_excerpt: Option<String>,
    pub error: Option<String>,
}

/// A status as text.
pub struct StatusView {
    pub phase: Seq<char>,
    pub run_id: Seq<char>,
    pub dataset_dir: Seq<char>,
    pub analysis_dir: Seq<char>,
    pub provider: Seq<char>,
    pub model: Seq<char>,
    pub buffered_records: nat,
    pub updated_unix_ms: nat,
    pub message: Option<Seq<char>>,
    pub analysis_markdown: Option<Seq<char>>,
    pub analysis_json: Option<Seq<char>>,
    pub summary_excerpt: Option<Seq<char>>,
    pub error: Option<Seq<char>>,
}

impl View for IntelligenceStatus {
    type V = StatusView;

    open spec fn view(&self) -> StatusView {
        StatusView {
            phase: self.phase@,
            run_id: self.run_id@,
            dataset_dir: self.dataset_dir@,
            analysis_dir: self.analysis_dir@,
            provider: self.provider@,
            model: self.model@,
            buffered_records: self.buffered_records as nat,
            updated_unix_ms: self.updated_unix_ms as nat,
            message: option_view(self.message),
            analysis_markdown: option_view(self.analysis_markdown),
            analysis_json: option_view(self.analysis_json),
            summary_excerpt: option_view(self.summary_excerpt),
            error: option_view(self.error),
        }
    }
}

/// A status of the run in `ctx` with no analysis attached.
pub open spec fn plain_status(
    ctx: &WorkerContext,
    phase: Seq<char>,
    buffered: nat,
    now: nat,
    message: Seq<char>,
    error: Option<Seq<char>>,
) -> StatusView {
    StatusView {
        phase,
        run_id: ctx.run_id@,
        dataset_dir: ctx.dataset_dir@,
        analysis_dir: ctx.analysis_dir@,
        provider: provider_name(ctx.provider),
        model: ctx.model_label@,
        buffered_records: buffered,
        updated_unix_ms: now,
        message: Some(message),
        analysis_markdown: None,
        analysis_json: None,
        summary_excerpt: None,
        error,
    }
}

fn make_status(
    ctx: &WorkerContext,
    phase: &str,
    buffered: usize,
    now: u64,
    message: String,
    error: Option<String>,
) -> (s: IntelligenceStatus)
    ensures
        s@ == plain_status(ctx, phase@, buffered as nat, now as nat, message@, option_view(error)),
{
    IntelligenceStatus {
        phase: String::from_str(phase),
        run_id: ctx.run_id.clone(),
        dataset_dir: ctx.dataset_dir.clone(),
        analysis_dir: ctx.analysis_dir.clone(),
        provider: String::from_str(ctx.provider.as_str()),
        model: ctx.model_label.clone(),
        buffered_records: buffered,
        updated_unix_ms: now,
        message: Some(message),
        analysis_markdown: None,
        analysis_json: None,
        summary_excerpt: None,
        error,
    }
}

/// How far a worker has come.
#[derive(Clone, Copy, Debug, PartialEq, Eq, Structural)]
pub enum WorkerPhase {
    Capturing,
    WritingDataset,
    Analyzing,
    Finished,
}

pub open spec fn phase_rank(p: WorkerPhase) -> nat {
    match p {
        WorkerPhase::Capturing => 0,
        WorkerPhase::WritingDataset => 1,
        WorkerPhase::Analyzing => 2,
        WorkerPhase::Finished => 3,
    }
}

/// The worker's state: its phase, the records buffered in the order they
/// arrived, how many were buffered at the last capture report, and how many
/// the dataset holds.
#[derive(Debug)]
pub struct WorkerState<R> {
    pub phase: WorkerPhase,
    pub records: Vec<R>,
    pub last_report: usize,
    pub dataset_records: usize,
}

/// What happened since the last step.
#[derive(Debug)]
pub enum WorkerEvent<R> {
    /// One more record of the live session.
    Record(R),
    /// The traced command finished.
    Finish { exit_code: i32, exit_signal: Option<String> },
    /// The session's sender went away before the command finished.
    ChannelClosed,
    /// The dataset bundle was written with this many records.
    DatasetWritten { total_records: usize },
    /// Writing the dataset bundle failed.
    DatasetFailed { error: String },
    /// The model answered; its answer was written to these files.
    AnalysisCompleted {
        model: String,
        markdown: String,
        json: String,
        excerpt: Option<String>,
    },
    /// The analysis failed.
    AnalysisFailed { error: String },
}

/// The events a phase waits for.
pub open spec fn event_fits<R>(phase: WorkerPhase, event: &WorkerEvent<R>) -> bool {
    match phase {
        WorkerPhase::Capturing => event is Record || event is Finish || event is ChannelClosed,
        WorkerPhase::WritingDataset => event is DatasetWritten || event is DatasetFailed,
        WorkerPhase::Analyzing => event is AnalysisCompleted || event is AnalysisFailed,
        WorkerPhase::Finished => false,
    }
}

/// The phase an event leads to.
pub open spec fn phase_after<R>(event: WorkerEvent<R>) -> WorkerPhase {
    match event {
        WorkerEvent::Record(_) => WorkerPhase::Capturing,
        WorkerEvent::Finish { .. } => WorkerPhase::WritingDataset,
        WorkerEvent::DatasetWritten { .. } => WorkerPhase::Analyzing,
        _ => WorkerPhase::Finished,
    }
}

/// The phase written in a status published on an event.
pub open spec fn status_phase<R>(event: WorkerEvent<R>) -> Seq<char> {
    match event {
        WorkerEvent::Record(_) => "capturing"@,
        WorkerEvent::Finish { .. } => "writing_dataset"@,
        WorkerEvent::DatasetWritten { .. } => "analyzing"@,
        WorkerEvent::AnalysisCompleted { .. } => "completed"@,
        _ => "failed"@,
    }
}

/// Whether a worker in phase `p` can take the events `es` one after another.
pub open spec fn run_accepts<R>(p: WorkerPhase, es: Seq<WorkerEvent<R>>) -> bool
    decreases es.len(),
{
    es.len() == 0 || (event_fits(p, &es[0]) && run_accepts(phase_after(es[0]), es.drop_first()))
}

/// Over a whole run, the phases that the events lead to never go back, and
/// a run that has finished takes no further event: the statuses come in the
/// order capturing, writing the dataset, analyzing, then one outcome.
pub proof fn lemma_run_phase_order<R>(p: WorkerPhase, es: Seq<WorkerEvent<R>>)
    requires
        run_accepts(p, es),
    ensures
        es.len() > 0 ==> phase_rank(p) <= phase_rank(phase_after(es[0])),
        forall|i: int, j: int|
            0 <= i < j < es.len() ==> phase_rank(phase_after(#[trigger] es[i])) <= phase_rank(
                phase_after(#[trigger] es[j]),
            ),
        forall|i: int| 0 <= i < es.len() - 1 ==> phase_after(#[trigger] es[i]) != WorkerPhase::Finished,
    decreases es.len(),
{
    if es.len() > 0 {
        let rest = es.drop_first();
        lemma_run_phase_order(phase_after(es[0]), rest);
        assert forall|i: int, j: int| 0 <= i < j < es.len() implies phase_rank(
            phase_after(#[trigger] es[i]),
        ) <= phase_rank(phase_after(#[trigger] es[j])) by {
            assert(es[j] == rest[j - 1]);
            if i > 0 {
                assert(es[i] == rest[i - 1]);
            } else if j > 1 {
                assert(rest[0] == es[1]);
                assert(phase_rank(phase_after(rest[0])) <= phase_rank(phase_after(rest[j - 1])));
            }
        }
        assert forall|i: int| 0 <= i < es.len() - 1 implies phase_after(#[trigger] es[i])
            != WorkerPhase::Finished by {
            if i > 0 {
                assert(es[i] == rest[i - 1]);
            } else {
                assert(rest.len() > 0);
                assert(run_accepts(phase_after(es[0]), rest));
                assert(event_fits(phase_after(es[0]), &rest[0]));
                if phase_after(es[0]) == WorkerPhase::Finished {
                    assert(!event_fits(WorkerPhase::Finished, &rest[0]));
                }
            }
        }
    }
}

/// The buffered records after an event: a record is added at the end,
/// every other event keeps them.
pub open spec fn records_after<R>(rs: Seq<R>, event: WorkerEvent<R>) -> Seq<R> {
    match event {
        WorkerEvent::Record(r) => rs.push(r),
        _ => rs,
    }
}

/// The buffered records after a run of events.
pub open spec fn run_records<R>(rs: Seq<R>, es: Seq<WorkerEvent<R>>) -> Seq<R>
    decreases es.len(),
{
    if es.len() == 0 {
        rs
    } else {
        run_records(records_after(rs, es[0]), es.drop_first())
    }
}

/// The records that a run of events carries, in order.
pub open spec fn carried_records<R>(es: Seq<WorkerEvent<R>>) -> Seq<R>
    decreases es.len(),
{
    if es.len() == 0 {
        Seq::empty()
    } else {
        (match es[0] {
            WorkerEvent::Record(r) => seq![r],
            _ => Seq::empty(),
        }) + carried_records(es.drop_first())
    }
}

/// Over a run, the records buffered (and so written as the dataset) are
/// the initial records followed by those of the session in arrival order.
pub proof fn lemma_records_in_arrival_order<R>(rs: Seq<R>, es: Seq<WorkerEvent<R>>)
    ensures
        run_records(rs, es) == rs + carried_records(es),
    decreases es.len(),
{
    if es.len() == 0 {
        assert(rs + Seq::<R>::empty() =~= rs);
    } else {
        let next = records_after(rs, es[0]);
        lemma_records_in_arrival_order(next, es.drop_first());
        let head: Seq<R> = match es[0] {
            WorkerEvent::Record(r) => seq![r],
            _ => Seq::empty(),
        };
        assert(next =~= rs + head);
        assert(rs + head + carried_records(es.drop_first()) =~= rs + (head + carried_records(
            es.drop_first(),
        )));
    }
}

/// What the caller does next.
#[derive(Debug)]
pub enum WorkerNext {
    /// Wait for the next session message.
    AwaitMessage,
    /// Write the buffered records as a dataset bundle.
    WriteDataset { exit_code: i32, exit_signal: Option<String> },
    /// Run the model analysis of the dataset.
    Analyze,
    /// Stop with this outcome.
    Stop(Result<(), String>),
}

/// What a step asks for: a status to publish first, if any, then the next move.
#[derive(Debug)]
pub struct WorkerStep {
    pub status: Option<IntelligenceStatus>,
    pub next: WorkerNext,
}

pub open spec fn status_view(s: Option<IntelligenceStatus>) -> Option<StatusView> {
    match s {
        Some(x) => Some(x@),
        None => None,
    }
}

/// Whether a capture report is due after `records` records, the last
/// report having been made at `last_report`: for each of the first four
/// records, then every 32.
pub open spec fn capture_due(records: nat, last_report: nat) -> bool {
    records <= 4 || (if records >= last_report {
        records - last_report
    } else {
        0
    }) >= 32
}

pub open spec fn capture_message(records: nat) -> Seq<char> {
    "captured "@ + decimal(records) + " records; waiting for the traced command to finish"@
}

pub open spec fn channel_closed_error() -> Seq<char> {
    "intelligence channel closed before the run finished"@
}

/// The first status of a worker that starts with `records` buffered, and
/// its state.
pub fn start_worker<R>(ctx: &WorkerContext, records: Vec<R>, now: u64) -> (r: (
    WorkerState<R>,
    IntelligenceStatus,
))
    ensures
        r.0 == (WorkerState {
            phase: WorkerPhase::Capturing,
            records,
            last_report: records.len(),
            dataset_records: 0,
        }),
        r.1@ == plain_status(
            ctx,
            "capturing"@,
            records.len() as nat,
            now as nat,
            "buffering live trace records for the dataset worker"@,
            None,
        ),
{
    let count = records.len();
    let status = make_status(
        ctx,
        "capturing",
        count,
        now,
        String::from_str("buffering live trace records for the dataset worker"),
        None,
    );
    let state = WorkerState {
        phase: WorkerPhase::Capturing,
        records,
        last_report: count,
        dataset_records: 0,
    };
    (state, status)
}

/// One decision of the worker on `event` at time `now`.  The phase never
/// goes back, the worker asks to stop exactly when it has finished, and a
/// record is kept after those that came before it, so the dataset is
/// written with the records in the order they arrived.
pub fn worker_step<R>(
    ctx: &WorkerContext,
    state: &mut WorkerState<R>,
    event: WorkerEvent<R>,
    now: u64,
) -> (r:
    WorkerStep)
    requires
        event_fits(old(state).phase, &event),
    ensures
        phase_rank(final(state).phase) >= phase_rank(old(state).phase),
        (r.next is Stop) <==> final(state).phase == WorkerPhase::Finished,
        final(state).phase == phase_after(event),
        final(state).records@ == records_after(old(state).records@, event),
        status_view(r.status) matches Some(v) ==> v.phase == status_phase(event),
        match event {
            WorkerEvent::Record(record) => {
                let n = (old(state).records.len() + 1) as nat;
                &&& final(state).phase == WorkerPhase::Capturing
                &&& final(state).records@ == old(state).records@.push(record)
                &&& final(state).dataset_records == old(state).dataset_records
                &&& r.next is AwaitMessage
                &&& if capture_due(n, old(state).last_report as nat) {
                    &&& final(state).last_report == n
                    &&& status_view(r.status) == Some(
                        plain_status(ctx, "capturing"@, n, now as nat, capture_message(n), None),
                    )
                } else {
                    &&& final(state).last_report == old(state).last_report
                    &&& r.status is None
                }
            },
            WorkerEvent::Finish { exit_code, exit_signal } => {
                &&& *final(state) == WorkerState { phase: WorkerPhase::WritingDataset, ..*old(state) }
                &&& status_view(r.status) == Some(
                    plain_status(
                        ctx,
                        "writing_dataset"@,
                        old(state).records.len() as nat,
                        now as nat,
                        "writing the buffered run into a dataset bundle"@,
                        None,
                    ),
                )
                &&& r.next == WorkerNext::WriteDataset { exit_code, exit_signal }
            },
            WorkerEvent::ChannelClosed => {
                &&& *final(state) == WorkerState { phase: WorkerPhase::Finished, ..*old(state) }
                &&& status_view(r.status) == Some(
                    plain_status(
                        ctx,
                        "failed"@,
                        old(state).records.len() as nat,
                        now as nat,
                        "intelligence supervisor stopped unexpectedly"@,
                        Some(channel_closed_error()),
                    ),
                )
                &&& r.next matches WorkerNext::Stop(Err(e)) && e@ == channel_closed_error()
            },
            WorkerEvent::DatasetWritten { total_records } => {
                &&& *final(state) == WorkerState {
                    phase: WorkerPhase::Analyzing,
                    dataset_records: total_records,
                    ..*old(state)
                }
                &&& status_view(r.status) == Some(
                    plain_status(
                        ctx,
                        "analyzing"@,
                        total_records as nat,
                        now as nat,
                        "dataset bundle ready; running model analysis"@,
                        None,
                    ),
                )
                &&& r.next is Analyze
            },
            WorkerEvent::DatasetFailed { error } => {
                &&& *final(state) == WorkerState { phase: WorkerPhase::Finished, ..*old(state) }
                &&& r.status is None
                &&& r.next == WorkerNext::Stop(Err(error))
            },
            WorkerEvent::AnalysisFailed { error } => {
                &&& *final(state) == WorkerState { phase: WorkerPhase::Finished, ..*old(state) }
                &&& status_view(r.status) == Some(
                    plain_status(
                        ctx,
                        "failed"@,
                        old(state).dataset_records as nat,
                        now as nat,
                        "dataset analysis failed"@,
                        Some(error@),
                    ),
                )
                &&& r.next == WorkerNext::Stop(Err(error))
            },
            WorkerEvent::AnalysisCompleted { model, markdown, json, excerpt } => {
                &&& *final(state) == WorkerState { phase: WorkerPhase::Finished, ..*old(state) }
                &&& status_view(r.status) == Some(
                    StatusView {
                        model: model@,
                        analysis_markdown: Some(markdown@),
                        analysis_json: Some(json@),
                        summary_excerpt: option_view(excerpt),
                        ..plain_status(
                            ctx,
                            "completed"@,
                            old(state).dataset_records as nat,
                            now as nat,
                            "intelligence analysis finished"@,
                            None,
                        )
                    },
                )
                &&& r.next == WorkerNext::Stop(Ok(()))
            },
        },
{
    match event {
        WorkerEvent::Record(record) => {
            state.records.push(record);
            let n = state.records.len();
            let since = if n >= state.last_report {
                n - state.last_report
            } else {
                0
            };
            if n <= 4 || since >= 32 {
                state.last_report = n;
                let mut message = String::from_str("captured ");
                message.append(decimal_string(n as u64).as_str());
                message.append(" records; waiting for the traced command to finish");
                let status = make_status(ctx, "capturing", n, now, message, None);
                WorkerStep { status: Some(status), next: WorkerNext::AwaitMessage }
            } else {
                WorkerStep { status: None, next: WorkerNext::AwaitMessage }
            }
        },
        WorkerEvent::Finish { exit_code, exit_signal } => {
            state.phase = WorkerPhase::WritingDataset;
            let status = make_status(
                ctx,
                "writing_dataset",
                state.records.len(),
                now,
                String::from_str("writing the buffered run into a dataset bundle"),
                None,
            );
            WorkerStep { status: Some(status), next: WorkerNext::WriteDataset { exit_code, exit_signal } }
        },
        WorkerEvent::ChannelClosed => {
            state.phase = WorkerPhase::Finished;
            let error = String::from_str("intelligence channel closed before the run finished");
            let status = make_status(
                ctx,
                "failed",
                state.records.len(),
                now,
                String::from_str("intelligence supervisor stopped unexpectedly"),
                Some(error.clone()),
            );
            WorkerStep { status: Some(status), next: WorkerNext::Stop(Err(error)) }
        },
        WorkerEvent::DatasetWritten { total_records } => {
            state.phase = WorkerPhase::Analyzing;
            state.dataset_records = total_records;
            let status = make_status(
                ctx,
                "analyzing",
                total_records,
                now,
                String::from_str("dataset bundle ready; running model analysis"),
                None,
            );
            WorkerStep { status: Some(status), next: WorkerNext::Analyze }
        },
        WorkerEvent::DatasetFailed { error } => {
            state.phase = WorkerPhase::Finished;
            WorkerStep { status: None, next: WorkerNext::Stop(Err(error)) }
        },
        WorkerEvent::AnalysisFailed { error } => {
            state.phase = WorkerPhase::Finished;
            let status = make_status(
                ctx,
                "failed",
                state.dataset_records,
                now,
                String::from_str("dataset analysis failed"),
                Some(error.clone()),
            );
            WorkerStep { status: Some(status), next: WorkerNext::Stop(Err(error)) }
        },
        WorkerEvent::AnalysisCompleted { model, markdown, json, excerpt } => {
            state.phase = WorkerPhase::Finished;
            let mut status = make_status(
                ctx,
                "completed",
                state.dataset_records,
                now,
                String::from_str("intelligence analysis finished"),
                None,
            );
            status.model = model;
            status.analysis_markdown = Some(markdown);
            status.analysis_json = Some(json);
            status.summary_excerpt = excerpt;
            WorkerStep { status: Some(status), next: WorkerNext::Stop(Ok(())) }
        },
    }
}

} // verus!
