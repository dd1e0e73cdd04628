//! Model analysis of a dataset run: provider selection, endpoint and model
//! resolution, prompt assembly and the names of the files that an analysis
//! writes.

use vstd::prelude::*;
use vstd::string::StringExecFns;

use reqwest::header::{HeaderValue, InvalidHeaderValue};

use crate::text::{
    chars_of, concat, has_suffix, in_class, join_lines, join_path, join_strings, path_join, push_char,
    str_ends_with, str_eq, string_of, sub_chars, trim, trim_both_chars, trim_end_chars, trim_end_class,
    trim_start_class, trim_ws, views, CharClass,
};

verus! {

/// Endpoint that the LM Studio provider uses when none is given.
pub const DEFAULT_LM_STUDIO_ENDPOINT: &'static str = "http://127.0.0.1:1234/v1";

/// Model that the LM Studio provider uses when none is given.
pub const DEFAULT_LM_STUDIO_MODEL: &'static str = "qwen/qwen3.5-9b";

/// Completion budget of an analysis request.
pub const DEFAULT_ANALYSIS_MAX_TOKENS: u32 = 900;

/// Number of event lines kept from each end of `events.jsonl`.
pub const DEFAULT_EVENT_SAMPLE_COUNT: usize = 12;

/// System prompt of every analysis request.
pub const DEFAULT_PROMPT_INSTRUCTIONS: &'static str = "Analyze this eBPF_tracker dataset as a test-learning artifact. Focus on what likely happened in the app, how much of the trace is tooling noise, any anomalies or regressions, and the next concrete follow-up steps. Reply in markdown with these sections: Summary, App Signal, Tooling Noise, Anomalies, Next Steps.";

/// The model servers an analysis can talk to.
#[derive(Clone, Copy, Debug, PartialEq, Eq, Structural)]
pub enum ModelProvider {
    LmStudio,
    OpenAiCompatible,
}

/// The name of a provider on the command line and in records.
pub open spec fn provider_name(p: ModelProvider) -> Seq<char> {
    match p {
        ModelProvider::LmStudio => "lm-studio"@,
        ModelProvider::OpenAiCompatible => "openai-compatible"@,
    }
}

/// The provider a command-line name selects, if any.
pub open spec fn provider_from_name(raw: Seq<char>) -> Option<ModelProvider> {
    if raw == "lm-studio"@ {
        Some(ModelProvider::LmStudio)
    } else if raw == "openai-compatible"@ || raw == "openai"@ {
        Some(ModelProvider::OpenAiCompatible)
    } else {
        None
    }
}

/// The message of a rejected provider name.
pub open spec fn unsupported_provider_message(raw: Seq<char>) -> Seq<char> {
    "unsupported model provider: "@ + raw
}

impl ModelProvider {
    pub fn as_str(self) -> (s: &'static str)
        ensures
            s@ == provider_name(self),
    {
        match self {
            ModelProvider::LmStudio => "lm-studio",
            ModelProvider::OpenAiCompatible => "openai-compatible",
        }
    }

    pub fn parse(raw: &str) -> (r: Result<Self, String>)
        ensures
            match r {
                Ok(p) => provider_from_name(raw@) == Some(p),
                Err(e) => provider_from_name(raw@) is None && e@
                    == unsupported_provider_message(raw@),
            },
    {
        if str_eq(raw, "lm-studio") {
            Ok(ModelProvider::LmStudio)
        } else if str_eq(raw, "openai-compatible") || str_eq(raw, "openai") {
            Ok(ModelProvider::OpenAiCompatible)
        } else {
            Err(concat("unsupported model provider: ", raw))
        }
    }
}

/// Every provider's name reads back as that provider.
pub proof fn lemma_provider_name_round_trip(p: ModelProvider)
    ensures
        provider_from_name(provider_name(p)) == Some(p),
{
    reveal_strlit("lm-studio");
    reveal_strlit("openai-compatible");
    reveal_strlit("openai");
    assert("lm-studio"@ != "openai-compatible"@) by {
        assert("lm-studio"@.len() != "openai-compatible"@.len());
    }
}

/// What an analysis needs to know of its run: the dataset directory, the
/// model server and the request settings other than the sampling
/// temperature.
#[derive(Clone, Debug)]
pub struct AnalyzeConfig {
    pub run_dir: String,
    pub provider: ModelProvider,
    pub endpoint: Option<String>,
    pub model: Option<String>,
    pub api_key: Option<String>,
    pub max_tokens: Option<u32>,
    pub instructions_path: Option<String>,
}

impl Default for AnalyzeConfig {
    fn default() -> (c: Self)
        ensures
            c.run_dir@ == Seq::<char>::empty(),
            c.provider == ModelProvider::LmStudio,
            c.endpoint is None,
            c.model is None,
            c.api_key is None,
            c.max_tokens == Some(DEFAULT_ANALYSIS_MAX_TOKENS),
            c.instructions_path is None,
    {
        AnalyzeConfig {
            run_dir: String::new(),
            provider: ModelProvider::LmStudio,
            endpoint: None,
            model: None,
            api_key: None,
            max_tokens: Some(DEFAULT_ANALYSIS_MAX_TOKENS),
            instructions_path: None,
        }
    }
}

/// The text view of a string result.
pub open spec fn result_view(r: Result<String, String>) -> Result<Seq<char>, Seq<char>> {
    match r {
        Ok(s) => Ok(s@),
        Err(e) => Err(e@),
    }
}

/// The text view of an optional string.
pub open spec fn option_view(o: Option<String>) -> Option<Seq<char>> {
    match o {
        Some(s) => Some(s@),
        None => None,
    }
}

/// The endpoint an analysis talks to: the given one, or LM Studio's local
/// server; an OpenAI-compatible server must be named.
pub open spec fn resolved_endpoint(provider: ModelProvider, endpoint: Option<Seq<char>>) -> Result<
    Seq<char>,
    Seq<char>,
> {
    match endpoint {
        Some(e) => Ok(e),
        None => match provider {
            ModelProvider::LmStudio => Ok(DEFAULT_LM_STUDIO_ENDPOINT@),
            ModelProvider::OpenAiCompatible => Err(
                "openai-compatible provider requires --endpoint"@,
            ),
        },
    }
}

/// The model an analysis asks for: the given one, or LM Studio's default;
/// an OpenAI-compatible server needs one named.
pub open spec fn resolved_model(provider: ModelProvider, model: Option<Seq<char>>) -> Result<
    Seq<char>,
    Seq<char>,
> {
    match model {
        Some(m) => Ok(m),
        None => match provider {
            ModelProvider::LmStudio => Ok(DEFAULT_LM_STUDIO_MODEL@),
            ModelProvider::OpenAiCompatible => Err("openai-compatible provider requires --model"@),
        },
    }
}

pub fn resolve_endpoint(config: &AnalyzeConfig) -> (r: Result<String, String>)
    ensures
        result_view(r) == resolved_endpoint(config.provider, option_view(config.endpoint)),
{
    match &config.endpoint {
        Some(e) => Ok(e.clone()),
        None => match config.provider {
            ModelProvider::LmStudio => Ok(String::from_str(DEFAULT_LM_STUDIO_ENDPOINT)),
            ModelProvider::OpenAiCompatible => Err(
                String::from_str("openai-compatible provider requires --endpoint"),
            ),
        },
    }
}

pub fn resolve_model(config: &AnalyzeConfig) -> (r: Result<String, String>)
    ensures
        result_view(r) == resolved_model(config.provider, option_view(config.model)),
{
    match &config.model {
        Some(m) => Ok(m.clone()),
        None => match config.provider {
            ModelProvider::LmStudio => Ok(String::from_str(DEFAULT_LM_STUDIO_MODEL)),
            ModelProvider::OpenAiCompatible => Err(
                String::from_str("openai-compatible provider requires --model"),
            ),
        },
    }
}

/// The note that ends a shortened prompt section.
pub open spec fn truncation_note() -> Seq<char> {
    "\n... truncated ..."@
}

/// `text` itself when it has at most `max_chars` characters, else its first
/// `max_chars` characters followed by the truncation note.
pub open spec fn trimmed_for_prompt(text: Seq<char>, max_chars: nat) -> Seq<char> {
    if text.len() <= max_chars {
        text
    } else {
        text.take(max_chars as int) + truncation_note()
    }
}

pub fn trim_for_prompt(text: &str, max_chars: usize) -> (r: String)
    ensures
        r@ == trimmed_for_prompt(text@, max_chars as nat),
{
    let v = chars_of(text);
    if v.len() <= max_chars {
        return String::from_str(text);
    }
    let head = sub_chars(&v, 0, max_chars);
    let mut r = string_of(&head);
    r.append("\n... truncated ...");
    r
}

/// Where the sample's tail begins: past the head, and `tail` lines before the end.
pub open spec fn sample_tail_start(len: nat, head: nat, tail: nat) -> nat {
    let head_end = if head < len { head } else { len };
    let from_end = if tail < len { (len - tail) as nat } else { 0nat };
    if head_end < from_end { from_end } else { head_end }
}

/// The lines that a sample keeps: the first `head` lines, then those of the
/// last `tail` lines that the head did not already take.
pub open spec fn sampled_lines(lines: Seq<Seq<char>>, head: nat, tail: nat) -> Seq<Seq<char>> {
    let head_end = if head < lines.len() { head } else { lines.len() };
    lines.take(head_end as int) + lines.subrange(
        sample_tail_start(lines.len(), head, tail) as int,
        lines.len() as int,
    )
}

/// Joins the sampled lines with newlines.  The sample keeps every line once
/// and in order when the head and tail together cover the file.
pub fn sample_event_lines(lines: &Vec<String>, head: usize, tail: usize) -> (r: String)
    ensures
        r@ == join_lines(sampled_lines(views(lines@), head as nat, tail as nat), "\n"@),
        lines.len() <= head + tail ==> sampled_lines(views(lines@), head as nat, tail as nat)
            == views(lines@),
{
    let ghost all = views(lines@);
    let len = lines.len();
    let head_end = if head < len { head } else { len };
    let from_end = if tail < len { len - tail } else { 0 };
    let tail_start = if head_end < from_end { from_end } else { head_end };
    let mut picked: Vec<String> = Vec::new();
    let mut i: usize = 0;
    while i < len
        invariant
            len == lines.len(),
            all == views(lines@),
            head_end <= tail_start <= len,
            head_end == (if head < len { head } else { len }),
            tail_start == sample_tail_start(len as nat, head as nat, tail as nat),
            i <= len,
            views(picked@) == all.take((if i < head_end { i } else { head_end }) as int) + (if i
                <= tail_start {
                Seq::<Seq<char>>::empty()
            } else {
                all.subrange(tail_start as int, i as int)
            }),
        decreases len - i,
    {
        let ghost before = views(picked@);
        if i < head_end || i >= tail_start {
            picked.push(lines[i].clone());
            assert(views(picked@) =~= before.push(all[i as int]));
        }
        proof {
            let ni = i + 1;
            if ni <= head_end {
                assert(all.take(ni as int) =~= all.take(i as int).push(all[i as int]));
            } else if ni > tail_start {
                if i == tail_start {
                    assert(all.subrange(tail_start as int, ni as int) =~= seq![all[i as int]]);
                } else {
                    assert(all.subrange(tail_start as int, ni as int) =~= all.subrange(
                        tail_start as int,
                        i as int,
                    ).push(all[i as int]));
                }
            }
        }
        i = i + 1;
        assert(views(picked@) =~= all.take((if i < head_end { i } else { head_end }) as int) + (
        if i <= tail_start {
            Seq::<Seq<char>>::empty()
        } else {
            all.subrange(tail_start as int, i as int)
        }));
    }
    assert(views(picked@) =~= sampled_lines(all, head as nat, tail as nat));
    proof {
        if len <= head + tail {
            assert(sampled_lines(all, head as nat, tail as nat) =~= all);
        }
    }
    join_strings(&picked, "\n")
}


/// ASCII letters and digits (`char::is_ascii_alphanumeric`).
pub open spec fn is_ascii_alphanumeric(c: char) -> bool {
    ('0' <= c && c <= '9') || ('a' <= c && c <= 'z') || ('A' <= c && c <= 'Z')
}

/// The characters that a file name built from a model keeps.
pub open spec fn is_name_char(c: char) -> bool {
    is_ascii_alphanumeric(c) || c == '.' || c == '_' || c == '-'
}

/// A kept character, or `-` in place of any other.
pub open spec fn name_char(c: char) -> char {
    if is_name_char(c) {
        c
    } else {
        '-'
    }
}

/// `s` with every run of `-` shortened to a single `-`.
pub open spec fn collapse_dashes(s: Seq<char>) -> Seq<char>
    decreases s.len(),
{
    if s.len() == 0 {
        s
    } else {
        let r = collapse_dashes(s.drop_last());
        if s.last() == '-' && r.len() > 0 && r.last() == '-' {
            r
        } else {
            r.push(s.last())
        }
    }
}

/// A model name made safe for a file name: unsupported characters become
/// `-`, runs of `-` shrink to one, and `-` is trimmed from both ends.
pub open spec fn sanitized_name(s: Seq<char>) -> Seq<char> {
    trim_end_class(
        trim_start_class(collapse_dashes(s.map_values(|c: char| name_char(c))), CharClass::Exactly('-')),
        CharClass::Exactly('-'),
    )
}

/// A name made only of kept characters, with no `--`, and no `-` at either end.
pub open spec fn is_file_friendly(s: Seq<char>) -> bool {
    &&& forall|i: int| 0 <= i < s.len() ==> #[trigger] is_name_char(s[i])
    &&& forall|i: int| 0 <= i < s.len() - 1 ==> !(#[trigger] s[i] == '-' && s[i + 1] == '-')
    &&& s.len() > 0 ==> s[0] != '-' && s.last() != '-'
}

proof fn lemma_collapse_dashes(s: Seq<char>)
    requires
        forall|i: int| 0 <= i < s.len() ==> #[trigger] is_name_char(s[i]),
    ensures
        forall|i: int|
            0 <= i < collapse_dashes(s).len() ==> #[trigger] is_name_char(collapse_dashes(s)[i]),
        forall|i: int|
            0 <= i < collapse_dashes(s).len() - 1 ==> !(#[trigger] collapse_dashes(s)[i] == '-'
                && collapse_dashes(s)[i + 1] == '-'),
    decreases s.len(),
{
    if s.len() > 0 {
        let d = s.drop_last();
        assert forall|i: int| 0 <= i < d.len() implies #[trigger] is_name_char(d[i]) by {
            assert(d[i] == s[i]);
        }
        lemma_collapse_dashes(d);
        let r = collapse_dashes(d);
        let c = collapse_dashes(s);
        assert(is_name_char(s[s.len() - 1]));
        if !(s.last() == '-' && r.len() > 0 && r.last() == '-') {
            assert(c == r.push(s.last()));
            assert forall|i: int| 0 <= i < c.len() implies #[trigger] is_name_char(c[i]) by {
                if i < r.len() {
                    assert(c[i] == r[i]);
                }
            }
            assert forall|i: int| 0 <= i < c.len() - 1 implies !(#[trigger] c[i] == '-' && c[i
                + 1] == '-') by {
                assert(c[i] == r[i]);
                if i + 1 < r.len() {
                    assert(c[i + 1] == r[i + 1]);
                }
            }
        }
    }
}

proof fn lemma_trim_start_is_suffix(s: Seq<char>, class: CharClass) -> (k: int)
    ensures
        0 <= k <= s.len(),
        trim_start_class(s, class) == s.subrange(k, s.len() as int),
        trim_start_class(s, class).len() > 0 ==> !in_class(class, trim_start_class(s, class)[0]),
    decreases s.len(),
{
    if s.len() > 0 && in_class(class, s[0]) {
        let k = lemma_trim_start_is_suffix(s.drop_first(), class);
        assert(s.drop_first().subrange(k, s.len() - 1) =~= s.subrange(k + 1, s.len() as int));
        k + 1
    } else {
        assert(s.subrange(0, s.len() as int) =~= s);
        0
    }
}

proof fn lemma_trim_end_is_prefix(s: Seq<char>, class: CharClass) -> (k: int)
    ensures
        0 <= k <= s.len(),
        trim_end_class(s, class) == s.subrange(0, k),
        trim_end_class(s, class).len() > 0 ==> !in_class(class, trim_end_class(s, class).last()),
    decreases s.len(),
{
    if s.len() > 0 && in_class(class, s.last()) {
        let k = lemma_trim_end_is_prefix(s.drop_last(), class);
        assert(s.drop_last().subrange(0, k) =~= s.subrange(0, k));
        k
    } else {
        assert(s.subrange(0, s.len() as int) =~= s);
        s.len() as int
    }
}

/// Every sanitized name is file friendly.
pub proof fn lemma_sanitized_name_is_file_friendly(s: Seq<char>)
    ensures
        is_file_friendly(sanitized_name(s)),
{
    let mapped = s.map_values(|c: char| name_char(c));
    assert forall|i: int| 0 <= i < mapped.len() implies #[trigger] is_name_char(mapped[i]) by {}
    lemma_collapse_dashes(mapped);
    let c = collapse_dashes(mapped);
    let t = trim_start_class(c, CharClass::Exactly('-'));
    let k1 = lemma_trim_start_is_suffix(c, CharClass::Exactly('-'));
    let u = trim_end_class(t, CharClass::Exactly('-'));
    let k2 = lemma_trim_end_is_prefix(t, CharClass::Exactly('-'));
    assert forall|i: int| 0 <= i < u.len() implies #[trigger] is_name_char(u[i]) by {
        assert(u[i] == c[k1 + i]);
    }
    assert forall|i: int| 0 <= i < u.len() - 1 implies !(#[trigger] u[i] == '-' && u[i + 1]
        == '-') by {
        assert(u[i] == c[k1 + i]);
        assert(u[i + 1] == c[k1 + i + 1]);
    }
    if u.len() > 0 {
        assert(u[0] == t[0]);
    }
}

/// A model name fit for a file name.
pub fn sanitize_name(value: &str) -> (r: String)
    ensures
        r@ == sanitized_name(value@),
        is_file_friendly(r@),
{
    let v = chars_of(value);
    let ghost mapped = v@.map_values(|c: char| name_char(c));
    let mut out: Vec<char> = Vec::new();
    let mut i: usize = 0;
    while i < v.len()
        invariant
            i <= v.len(),
            mapped == v@.map_values(|c: char| name_char(c)),
            out@ == collapse_dashes(mapped.take(i as int)),
        decreases v.len() - i,
    {
        let c = v[i];
        let keep = ('0' <= c && c <= '9') || ('a' <= c && c <= 'z') || ('A' <= c && c <= 'Z')
            || c == '.' || c == '_' || c == '-';
        let m = if keep {
            c
        } else {
            '-'
        };
        assert(m == mapped[i as int]);
        assert(mapped.take(i + 1).drop_last() =~= mapped.take(i as int));
        if !(m == '-' && out.len() > 0 && out[out.len() - 1] == '-') {
            out.push(m);
        }
        i = i + 1;
    }
    assert(mapped.take(v.len() as int) =~= mapped);
    let t = trim_both_chars(&out, CharClass::Exactly('-'));
    proof {
        lemma_sanitized_name_is_file_friendly(value@);
    }
    string_of(&t)
}

/// The path that chat completions are posted to under an API base.
pub open spec fn chat_completions_path() -> Seq<char> {
    "/chat/completions"@
}

/// The chat-completions URL of an endpoint: trailing `/` removed, and the
/// completions path added unless the endpoint already ends with it.
pub open spec fn chat_url(endpoint: Seq<char>) -> Seq<char> {
    let t = trim_end_class(endpoint, CharClass::Exactly('/'));
    if has_suffix(t, chat_completions_path()) {
        t
    } else {
        t + chat_completions_path()
    }
}

pub fn chat_completions_url(endpoint: &str) -> (r: String)
    ensures
        r@ == chat_url(endpoint@),
{
    let v = chars_of(endpoint);
    let t = trim_end_chars(&v, CharClass::Exactly('/'));
    let ts = string_of(&t);
    if str_ends_with(ts.as_str(), "/chat/completions") {
        ts
    } else {
        concat(ts.as_str(), "/chat/completions")
    }
}

/// The completions path is added at most once: a completions URL is its own
/// completions URL.
pub proof fn lemma_chat_url_idempotent(endpoint: Seq<char>)
    ensures
        chat_url(chat_url(endpoint)) == chat_url(endpoint),
{
    reveal_strlit("/chat/completions");
    let u = chat_url(endpoint);
    let t = trim_end_class(endpoint, CharClass::Exactly('/'));
    let p = chat_completions_path();
    if !has_suffix(t, p) {
        assert((t + p).subrange((t + p).len() - p.len(), (t + p).len() as int) =~= p);
    }
    assert(has_suffix(u, p));
    assert(u.last() == p.last());
    assert(u.len() > 0 && !in_class(CharClass::Exactly('/'), u.last()));
    assert(trim_end_class(u, CharClass::Exactly('/')) == u);
}

/// The instructions section of a prompt, before trimming.
pub open spec fn instructions_block(text: Option<Seq<char>>) -> Seq<char> {
    match text {
        Some(t) => "\nAdditional instructions:\n"@ + t + "\n"@,
        None => Seq::empty(),
    }
}

/// The user prompt of an analysis request: the run directory, the run's
/// metadata and features, its process and aggregate files (cut to 6000 and
/// 3000 characters), the sampled events and any extra instructions, each
/// trimmed of surrounding white space.
pub open spec fn user_prompt(
    run_dir: Seq<char>,
    run_json: Seq<char>,
    features_json: Seq<char>,
    processes_json: Seq<char>,
    aggregates_json: Seq<char>,
    event_samples: Seq<char>,
    instructions: Option<Seq<char>>,
) -> Seq<char> {
    "Dataset run directory: "@ + run_dir + "\n\nRun metadata:\n```json\n"@ + trim_ws(run_json)
        + "\n```\n\nDerived features:\n```json\n"@ + trim_ws(features_json)
        + "\n```\n\nProcesses:\n```json\n"@ + trim_ws(trimmed_for_prompt(processes_json, 6000))
        + "\n```\n\nAggregates:\n```json\n"@ + trim_ws(trimmed_for_prompt(aggregates_json, 3000))
        + "\n```\n\nEvent samples:\n```jsonl\n"@ + trim_ws(event_samples) + "\n```\n"@ + trim_ws(
        instructions_block(instructions),
    )
}

pub fn build_user_prompt(
    run_dir: &str,
    run_json: &str,
    features_json: &str,
    processes_json: &str,
    aggregates_json: &str,
    event_samples: &str,
    instructions: Option<&str>,
) -> (r: String)
    ensures
        r@ == user_prompt(
            run_dir@,
            run_json@,
            features_json@,
            processes_json@,
            aggregates_json@,
            event_samples@,
            match instructions {
                Some(t) => Some(t@),
                None => None,
            },
        ),
{
    let processes = trim_for_prompt(processes_json, 6000);
    let aggregates = trim_for_prompt(aggregates_json, 3000);
    let extra = match instructions {
        Some(text) => {
            let mut block = String::from_str("\nAdditional instructions:\n");
            block.append(text);
            block.append("\n");
            block
        },
        None => String::new(),
    };
    let mut r = String::from_str("Dataset run directory: ");
    r.append(run_dir);
    r.append("\n\nRun metadata:\n```json\n");
    r.append(trim(run_json).as_str());
    r.append("\n```\n\nDerived features:\n```json\n");
    r.append(trim(features_json).as_str());
    r.append("\n```\n\nProcesses:\n```json\n");
    r.append(trim(processes.as_str()).as_str());
    r.append("\n```\n\nAggregates:\n```json\n");
    r.append(trim(aggregates.as_str()).as_str());
    r.append("\n```\n\nEvent samples:\n```jsonl\n");
    r.append(trim(event_samples).as_str());
    r.append("\n```\n");
    r.append(trim(extra.as_str()).as_str());
    r
}

/// The file stem of an analysis: provider, `--`, and the sanitized model.
pub open spec fn analysis_stem(provider: ModelProvider, model: Seq<char>) -> Seq<char> {
    provider_name(provider) + "--"@ + sanitized_name(model)
}

/// The directory an analysis writes into.
pub open spec fn analysis_dir_of(run_dir: Seq<char>) -> Seq<char> {
    path_join(run_dir, "analysis"@)
}

/// The outcome of an analysis: who answered and where the answer went.
#[derive(Clone, Debug)]
pub struct AnalyzeSummary {
    pub provider: ModelProvider,
    pub model: String,
    pub output_markdown: String,
    pub output_json: String,
}

/// `run_dir/analysis`.
pub fn analysis_dir(run_dir: &str) -> (r: String)
    ensures
        r@ == analysis_dir_of(run_dir@),
{
    join_path(run_dir, "analysis")
}

/// The summary of an analysis of `run_dir` answered by `model`: the
/// markdown and JSON files are named after the provider and the model.
pub fn analysis_summary(run_dir: &str, provider: ModelProvider, model: &str) -> (s: AnalyzeSummary)
    ensures
        s.provider == provider,
        s.model@ == model@,
        s.output_markdown@ == path_join(
            analysis_dir_of(run_dir@),
            analysis_stem(provider, model@) + ".md"@,
        ),
        s.output_json@ == path_join(
            analysis_dir_of(run_dir@),
            analysis_stem(provider, model@) + ".json"@,
        ),
{
    let dir = analysis_dir(run_dir);
    let mut stem = String::from_str(provider.as_str());
    stem.append("--");
    stem.append(sanitize_name(model).as_str());
    let md_name = concat(stem.as_str(), ".md");
    let json_name = concat(stem.as_str(), ".json");
    AnalyzeSummary {
        provider,
        model: String::from_str(model),
        output_markdown: join_path(dir.as_str(), md_name.as_str()),
        output_json: join_path(dir.as_str(), json_name.as_str()),
    }
}


#[verifier::external_type_specification]
#[verifier::external_body]
pub struct ExHeaderValue(HeaderValue);

#[verifier::external_type_specification]
#[verifier::external_body]
pub struct ExInvalidHeaderValue(InvalidHeaderValue);

/// A character that a header value may hold: a tab, or anything from the
/// space up except DEL (every byte of a non-ASCII character is above DEL).
pub open spec fn is_header_value_char(c: char) -> bool {
    c == '\t' || (' ' <= c && c != '\x7F')
}

/// Whether every character of `s` may stand in a header value.
pub open spec fn is_header_value_text(s: Seq<char>) -> bool {
    forall|i: int| 0 <= i < s.len() ==> #[trigger] is_header_value_char(s[i])
}

/// A header value together with the text it was made from.  Only
/// `header_value_from_str` makes one, so the value always holds the bytes
/// of the text.
#[derive(Debug)]
pub struct CheckedHeader {
    text: String,
    value: HeaderValue,
}

impl CheckedHeader {
    /// The text the header value was made from.
    pub closed spec fn text_view(&self) -> Seq<char> {
        self.text@
    }

    pub fn text(&self) -> (r: &str)
        ensures
            r@ == self.text_view(),
    {
        self.text.as_str()
    }

    /// The header value, to be handed to the HTTP client.
    pub fn into_value(self) -> HeaderValue {
        self.value
    }
}

/// `HeaderValue::from_str` (reqwest's re-export of the `http` crate's): it
/// succeeds exactly when every byte of `s` is a tab or lies in 32..=255
/// other than 127, and the value it makes holds a copy of the bytes of
/// `s`, which is kept beside it as text.
#[verifier::external_body]
fn header_value_from_str(s: &str) -> (r: Result<CheckedHeader, InvalidHeaderValue>)
    ensures
        r is Ok <==> is_header_value_text(s@),
        r matches Ok(h) ==> h.text_view() == s@,
{
    match HeaderValue::from_str(s) {
        Ok(value) => Ok(CheckedHeader { text: s.to_string(), value }),
        Err(e) => Err(e),
    }
}

/// The `Display` text of `InvalidHeaderValue`, which is fixed.
#[verifier::external_body]
fn invalid_header_value_text(e: &InvalidHeaderValue) -> (r: String)
    ensures
        r@ == "failed to parse header value"@,
{
    e.to_string()
}

/// The credentials sent for an API key: `Bearer ` and the key without
/// surrounding white space.
pub open spec fn bearer_text(api_key: Seq<char>) -> Seq<char> {
    "Bearer "@ + trim_ws(api_key)
}

pub fn bearer_credentials(api_key: &str) -> (r: String)
    ensures
        r@ == bearer_text(api_key@),
{
    concat("Bearer ", trim(api_key).as_str())
}

/// The `Authorization` header value for an API key; refused when the key
/// holds a character that a header value cannot carry.
pub fn authorization_header(api_key: &str) -> (r: Result<CheckedHeader, String>)
    ensures
        r is Ok <==> is_header_value_text(bearer_text(api_key@)),
        r matches Ok(h) ==> h.text_view() == bearer_text(api_key@),
        r matches Err(e) ==> e@ == "invalid API key header: failed to parse header value"@,
{
    let bearer = bearer_credentials(api_key);
    match header_value_from_str(bearer.as_str()) {
        Ok(v) => Ok(v),
        Err(e) => {
            let r = concat("invalid API key header: ", invalid_header_value_text(&e).as_str());
            proof {
                reveal_strlit("invalid API key header: ");
                reveal_strlit("failed to parse header value");
                reveal_strlit("invalid API key header: failed to parse header value");
                assert(r@ =~= "invalid API key header: failed to parse header value"@);
            }
            Err(r)
        },
    }
}

} // verus!
