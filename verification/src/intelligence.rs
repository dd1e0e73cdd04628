//! The `--intelligence*` options: reading them from the command line,
//! writing them back for a child tracker, and the decisions of the worker
//! that turns a live session into an analysed dataset.

use vstd::prelude::*;
use vstd::string::StringExecFns;

use crate::analysis::{
    lemma_provider_name_round_trip, option_view, provider_from_name, provider_name,
    unsupported_provider_message, ModelProvider, DEFAULT_ANALYSIS_MAX_TOKENS,
};
use crate::runtime::path_components;
use crate::number::{is_float_literal, is_float_text, lemma_parse_u32_of_decimal, parse_u32, parsed_u32};
use crate::text::{
    chars_of, concat, decimal, decimal_string, has_prefix, str_eq, str_starts_with, string_of,
    strip_prefix_all, strip_prefix_all_chars, views,
};

verus! {

/// Where dataset bundles go unless another root is given.
pub const DEFAULT_OUTPUT_ROOT: &'static str = "datasets";

/// Whether two Unix paths have the same components (`Path`'s `==`).
pub open spec fn path_eq(a: Seq<char>, b: Seq<char>) -> bool {
    path_components(a) == path_components(b)
}

/// `Path::new(a) == Path::new(b)`, on Unix: paths are compared component by
/// component.
#[verifier::external_body]
fn same_path(a: &str, b: &str) -> (r: bool)
    ensures
        r == path_eq(a@, b@),
{
    std::path::Path::new(a) == std::path::Path::new(b)
}

/// How the live session is captured and analysed.  A temperature is kept
/// as the text that was given, which is known to read as a float.
#[derive(Clone, Debug)]
pub struct IntelligenceOptions {
    pub enabled: bool,
    pub output_root: String,
    pub provider: ModelProvider,
    pub endpoint: Option<String>,
    pub model: Option<String>,
    pub api_key: Option<String>,
    pub temperature: Option<String>,
    pub max_tokens: Option<u32>,
    pub instructions_path: Option<String>,
}

/// The options as text.
pub struct OptionsView {
    pub enabled: bool,
    pub output_root: Seq<char>,
    pub provider: ModelProvider,
    pub endpoint: Option<Seq<char>>,
    pub model: Option<Seq<char>>,
    pub api_key: Option<Seq<char>>,
    pub temperature: Option<Seq<char>>,
    pub max_tokens: Option<u32>,
    pub instructions_path: Option<Seq<char>>,
}

impl View for IntelligenceOptions {
    type V = OptionsView;

    open spec fn view(&self) -> OptionsView {
        OptionsView {
            enabled: self.enabled,
            output_root: self.output_root@,
            provider: self.provider,
            endpoint: option_view(self.endpoint),
            model: option_view(self.model),
            api_key: option_view(self.api_key),
            temperature: option_view(self.temperature),
            max_tokens: self.max_tokens,
            instructions_path: option_view(self.instructions_path),
        }
    }
}

/// The options in force when none is given: disabled, LM Studio, the
/// default output root and token budget.
pub open spec fn default_options() -> OptionsView {
    OptionsView {
        enabled: false,
        output_root: DEFAULT_OUTPUT_ROOT@,
        provider: ModelProvider::LmStudio,
        endpoint: None,
        model: None,
        api_key: None,
        temperature: None,
        max_tokens: Some(DEFAULT_ANALYSIS_MAX_TOKENS),
        instructions_path: None,
    }
}

impl Default for IntelligenceOptions {
    fn default() -> (o: Self)
        ensures
            o@ == default_options(),
    {
        IntelligenceOptions {
            enabled: false,
            output_root: String::from_str(DEFAULT_OUTPUT_ROOT),
            provider: ModelProvider::LmStudio,
            endpoint: None,
            model: None,
            api_key: None,
            temperature: None,
            max_tokens: Some(DEFAULT_ANALYSIS_MAX_TOKENS),
            instructions_path: None,
        }
    }
}

impl IntelligenceOptions {
    pub fn is_enabled(&self) -> (r: bool)
        ensures
            r == self.enabled,
    {
        self.enabled
    }
}

/// The option that a flag sets.
#[derive(Clone, Copy, Debug, PartialEq, Eq, Structural)]
pub enum OptionField {
    Output,
    Provider,
    Endpoint,
    Model,
    ApiKey,
    Temperature,
    MaxTokens,
    InstructionsFile,
}

/// The flag of an option; the flag followed by `=` carries the value inline.
pub open spec fn field_flag(f: OptionField) -> Seq<char> {
    match f {
        OptionField::Output => "--intelligence-output"@,
        OptionField::Provider => "--intelligence-provider"@,
        OptionField::Endpoint => "--intelligence-endpoint"@,
        OptionField::Model => "--intelligence-model"@,
        OptionField::ApiKey => "--intelligence-api-key"@,
        OptionField::Temperature => "--intelligence-temperature"@,
        OptionField::MaxTokens => "--intelligence-max-tokens"@,
        OptionField::InstructionsFile => "--intelligence-instructions-file"@,
    }
}

pub open spec fn inline_prefix(f: OptionField) -> Seq<char> {
    field_flag(f) + "="@
}

pub fn field_flag_str(f: OptionField) -> (s: &'static str)
    ensures
        s@ == field_flag(f),
{
    match f {
        OptionField::Output => "--intelligence-output",
        OptionField::Provider => "--intelligence-provider",
        OptionField::Endpoint => "--intelligence-endpoint",
        OptionField::Model => "--intelligence-model",
        OptionField::ApiKey => "--intelligence-api-key",
        OptionField::Temperature => "--intelligence-temperature",
        OptionField::MaxTokens => "--intelligence-max-tokens",
        OptionField::InstructionsFile => "--intelligence-instructions-file",
    }
}

/// What a command-line argument is to the intelligence options.
#[derive(Clone, Copy, Debug, PartialEq, Eq, Structural)]
pub enum ArgMatch {
    /// `--intelligence` or `--intelligence-dataset`.
    Enable,
    /// A flag whose value is the next argument.
    Separate(OptionField),
    /// A flag with its value after `=`.
    Inline(OptionField),
    NoMatch,
}

/// The first matching reading of an argument: the two enabling flags, then
/// each flag exactly, then each flag with an inline value.
pub open spec fn classify_arg(a: Seq<char>) -> ArgMatch {
    if a == "--intelligence"@ || a == "--intelligence-dataset"@ {
        ArgMatch::Enable
    } else if a == field_flag(OptionField::Output) {
        ArgMatch::Separate(OptionField::Output)
    } else if a == field_flag(OptionField::Provider) {
        ArgMatch::Separate(OptionField::Provider)
    } else if a == field_flag(OptionField::Endpoint) {
        ArgMatch::Separate(OptionField::Endpoint)
    } else if a == field_flag(OptionField::Model) {
        ArgMatch::Separate(OptionField::Model)
    } else if a == field_flag(OptionField::ApiKey) {
        ArgMatch::Separate(OptionField::ApiKey)
    } else if a == field_flag(OptionField::Temperature) {
        ArgMatch::Separate(OptionField::Temperature)
    } else if a == field_flag(OptionField::MaxTokens) {
        ArgMatch::Separate(OptionField::MaxTokens)
    } else if a == field_flag(OptionField::InstructionsFile) {
        ArgMatch::Separate(OptionField::InstructionsFile)
    } else if has_prefix(a, inline_prefix(OptionField::Output)) {
        ArgMatch::Inline(OptionField::Output)
    } else if has_prefix(a, inline_prefix(OptionField::Provider)) {
        ArgMatch::Inline(OptionField::Provider)
    } else if has_prefix(a, inline_prefix(OptionField::Endpoint)) {
        ArgMatch::Inline(OptionField::Endpoint)
    } else if has_prefix(a, inline_prefix(OptionField::Model)) {
        ArgMatch::Inline(OptionField::Model)
    } else if has_prefix(a, inline_prefix(OptionField::ApiKey)) {
        ArgMatch::Inline(OptionField::ApiKey)
    } else if has_prefix(a, inline_prefix(OptionField::Temperature)) {
        ArgMatch::Inline(OptionField::Temperature)
    } else if has_prefix(a, inline_prefix(OptionField::MaxTokens)) {
        ArgMatch::Inline(OptionField::MaxTokens)
    } else if has_prefix(a, inline_prefix(OptionField::InstructionsFile)) {
        ArgMatch::Inline(OptionField::InstructionsFile)
    } else {
        ArgMatch::NoMatch
    }
}

fn is_inline(arg: &str, f: OptionField) -> (r: bool)
    ensures
        r == has_prefix(arg@, inline_prefix(f)),
{
    let prefix = concat(field_flag_str(f), "=");
    str_starts_with(arg, prefix.as_str())
}

pub fn classify(arg: &str) -> (r: ArgMatch)
    ensures
        r == classify_arg(arg@),
{
    if str_eq(arg, "--intelligence") || str_eq(arg, "--intelligence-dataset") {
        ArgMatch::Enable
    } else if str_eq(arg, field_flag_str(OptionField::Output)) {
        ArgMatch::Separate(OptionField::Output)
    } else if str_eq(arg, field_flag_str(OptionField::Provider)) {
        ArgMatch::Separate(OptionField::Provider)
    } else if str_eq(arg, field_flag_str(OptionField::Endpoint)) {
        ArgMatch::Separate(OptionField::Endpoint)
    } else if str_eq(arg, field_flag_str(OptionField::Model)) {
        ArgMatch::Separate(OptionField::Model)
    } else if str_eq(arg, field_flag_str(OptionField::ApiKey)) {
        ArgMatch::Separate(OptionField::ApiKey)
    } else if str_eq(arg, field_flag_str(OptionField::Temperature)) {
        ArgMatch::Separate(OptionField::Temperature)
    } else if str_eq(arg, field_flag_str(OptionField::MaxTokens)) {
        ArgMatch::Separate(OptionField::MaxTokens)
    } else if str_eq(arg, field_flag_str(OptionField::InstructionsFile)) {
        ArgMatch::Separate(OptionField::InstructionsFile)
    } else if is_inline(arg, OptionField::Output) {
        ArgMatch::Inline(OptionField::Output)
    } else if is_inline(arg, OptionField::Provider) {
        ArgMatch::Inline(OptionField::Provider)
    } else if is_inline(arg, OptionField::Endpoint) {
        ArgMatch::Inline(OptionField::Endpoint)
    } else if is_inline(arg, OptionField::Model) {
        ArgMatch::Inline(OptionField::Model)
    } else if is_inline(arg, OptionField::ApiKey) {
        ArgMatch::Inline(OptionField::ApiKey)
    } else if is_inline(arg, OptionField::Temperature) {
        ArgMatch::Inline(OptionField::Temperature)
    } else if is_inline(arg, OptionField::MaxTokens) {
        ArgMatch::Inline(OptionField::MaxTokens)
    } else if is_inline(arg, OptionField::InstructionsFile) {
        ArgMatch::Inline(OptionField::InstructionsFile)
    } else {
        ArgMatch::NoMatch
    }
}

/// The options with the capture enabled.
pub open spec fn enabled(o: OptionsView) -> OptionsView {
    OptionsView { enabled: true, ..o }
}

/// Setting one option from its value text; setting any option enables the
/// capture.  A provider must be known, a temperature must read as a float
/// and a token budget as a `u32`.
pub open spec fn with_field(o: OptionsView, f: OptionField, value: Seq<char>) -> Result<
    OptionsView,
    Seq<char>,
> {
    let e = enabled(o);
    match f {
        OptionField::Output => Ok(OptionsView { output_root: value, ..e }),
        OptionField::Provider => match provider_from_name(value) {
            Some(p) => Ok(OptionsView { provider: p, ..e }),
            None => Err(unsupported_provider_message(value)),
        },
        OptionField::Endpoint => Ok(OptionsView { endpoint: Some(value), ..e }),
        OptionField::Model => Ok(OptionsView { model: Some(value), ..e }),
        OptionField::ApiKey => Ok(OptionsView { api_key: Some(value), ..e }),
        OptionField::Temperature => if is_float_literal(value) {
            Ok(OptionsView { temperature: Some(value), ..e })
        } else {
            Err("invalid intelligence temperature: "@ + value)
        },
        OptionField::MaxTokens => match parsed_u32(value) {
            Some(n) => Ok(OptionsView { max_tokens: Some(n), ..e }),
            None => Err("invalid intelligence max tokens: "@ + value),
        },
        OptionField::InstructionsFile => Ok(OptionsView { instructions_path: Some(value), ..e }),
    }
}

/// What reading the argument at `index` gives: whether it was an
/// intelligence option (or why it was refused), where reading goes on,
/// and the options after it.
pub struct StepOutcome {
    pub result: Result<bool, Seq<char>>,
    pub index: int,
    pub options: OptionsView,
}

/// One step of reading intelligence options.  A flag without its value is
/// refused and changes nothing; a value that is refused still leaves the
/// capture enabled; the index moves only past what was read.
pub open spec fn parse_step(args: Seq<Seq<char>>, index: int, o: OptionsView) -> StepOutcome {
    if !(0 <= index < args.len()) {
        StepOutcome { result: Ok(false), index, options: o }
    } else {
        match classify_arg(args[index]) {
            ArgMatch::NoMatch => StepOutcome { result: Ok(false), index, options: o },
            ArgMatch::Enable => StepOutcome {
                result: Ok(true),
                index: index + 1,
                options: enabled(o),
            },
            ArgMatch::Separate(f) => if index + 1 < args.len() {
                match with_field(o, f, args[index + 1]) {
                    Ok(o2) => StepOutcome { result: Ok(true), index: index + 2, options: o2 },
                    Err(e) => StepOutcome { result: Err(e), index, options: enabled(o) },
                }
            } else {
                StepOutcome {
                    result: Err("missing value for "@ + field_flag(f)),
                    index,
                    options: o,
                }
            },
            ArgMatch::Inline(f) => match with_field(
                o,
                f,
                strip_prefix_all(args[index], inline_prefix(f)),
            ) {
                Ok(o2) => StepOutcome { result: Ok(true), index: index + 1, options: o2 },
                Err(e) => StepOutcome { result: Err(e), index, options: enabled(o) },
            },
        }
    }
}

pub open spec fn bool_result_view(r: Result<bool, String>) -> Result<bool, Seq<char>> {
    match r {
        Ok(b) => Ok(b),
        Err(e) => Err(e@),
    }
}

fn set_option(options: &mut IntelligenceOptions, f: OptionField, value: &str) -> (r: Result<
    (),
    String,
>)
    requires
        old(options).enabled,
    ensures
        match with_field(old(options)@, f, value@) {
            Ok(o) => r is Ok && final(options)@ == o,
            Err(e) => r matches Err(m) && m@ == e && final(options)@ == old(options)@,
        },
{
    match f {
        OptionField::Output => {
            options.output_root = String::from_str(value);
        },
        OptionField::Provider => {
            match ModelProvider::parse(value) {
                Ok(p) => {
                    options.provider = p;
                },
                Err(e) => {
                    return Err(e);
                },
            }
        },
        OptionField::Endpoint => {
            options.endpoint = Some(String::from_str(value));
        },
        OptionField::Model => {
            options.model = Some(String::from_str(value));
        },
        OptionField::ApiKey => {
            options.api_key = Some(String::from_str(value));
        },
        OptionField::Temperature => {
            if !is_float_text(value) {
                return Err(concat("invalid intelligence temperature: ", value));
            }
            options.temperature = Some(String::from_str(value));
        },
        OptionField::MaxTokens => {
            match parse_u32(value) {
                Some(n) => {
                    options.max_tokens = Some(n);
                },
                None => {
                    return Err(concat("invalid intelligence max tokens: ", value));
                },
            }
        },
        OptionField::InstructionsFile => {
            options.instructions_path = Some(String::from_str(value));
        },
    }
    Ok(())
}

/// Reads the intelligence option at `*index`, if it is one, into `options`
/// and moves `*index` past it.
pub fn parse_intelligence_arg(
    args: &Vec<String>,
    index: &mut usize,
    options: &mut IntelligenceOptions,
) -> (r: Result<bool, String>)
    ensures
        bool_result_view(r) == parse_step(views(args@), *old(index) as int, old(options)@).result,
        *final(index) as int == parse_step(views(args@), *old(index) as int, old(options)@).index,
        final(options)@ == parse_step(views(args@), *old(index) as int, old(options)@).options,
{
    let ghost a = views(args@);
    if *index >= args.len() {
        return Ok(false);
    }
    let i = *index;
    let arg = args[i].as_str();
    assert(arg@ == a[i as int]);
    match classify(arg) {
        ArgMatch::NoMatch => Ok(false),
        ArgMatch::Enable => {
            options.enabled = true;
            *index = i + 1;
            Ok(true)
        },
        ArgMatch::Separate(f) => {
            if args.len() - i < 2 {
                return Err(concat("missing value for ", field_flag_str(f)));
            }
            let value = args[i + 1].as_str();
            assert(value@ == a[i + 1]);
            options.enabled = true;
            match set_option(options, f, value) {
                Ok(()) => {},
                Err(e) => {
                    return Err(e);
                },
            }
            *index = i + 2;
            Ok(true)
        },
        ArgMatch::Inline(f) => {
            let prefix = concat(field_flag_str(f), "=");
            let v = chars_of(arg);
            let p = chars_of(prefix.as_str());
            proof {
                reveal_strlit("=");
            }
            let value_chars = strip_prefix_all_chars(&v, &p);
            let value = string_of(&value_chars);
            options.enabled = true;
            match set_option(options, f, value.as_str()) {
                Ok(()) => {},
                Err(e) => {
                    return Err(e);
                },
            }
            *index = i + 1;
            Ok(true)
        },
    }
}


/// The flags and values of a list of settings, in order.
pub open spec fn flag_pairs(ps: Seq<(OptionField, Seq<char>)>) -> Seq<Seq<char>>
    decreases ps.len(),
{
    if ps.len() == 0 {
        Seq::empty()
    } else {
        seq![field_flag(ps[0].0), ps[0].1] + flag_pairs(ps.drop_first())
    }
}

/// One setting when `cond` holds, none otherwise.
pub open spec fn pair_if(cond: bool, f: OptionField, value: Seq<char>) -> Seq<
    (OptionField, Seq<char>),
> {
    if cond {
        seq![(f, value)]
    } else {
        Seq::empty()
    }
}

/// Whether an output root names the default root as a path.
pub open spec fn root_is_default(root: Seq<char>) -> bool {
    path_eq(root, DEFAULT_OUTPUT_ROOT@)
}

/// The settings that differ from what a child tracker would assume: the
/// output root and provider when they are not the defaults, every option
/// that is given, and the token budget when it is given and not the default.
pub open spec fn emitted_settings(o: OptionsView) -> Seq<(OptionField, Seq<char>)> {
    pair_if(!root_is_default(o.output_root), OptionField::Output, o.output_root)
        + pair_if(
        o.provider != ModelProvider::LmStudio,
        OptionField::Provider,
        provider_name(o.provider),
    ) + pair_if(o.endpoint is Some, OptionField::Endpoint, o.endpoint->0) + pair_if(
        o.model is Some,
        OptionField::Model,
        o.model->0,
    ) + pair_if(o.api_key is Some, OptionField::ApiKey, o.api_key->0) + pair_if(
        o.temperature is Some,
        OptionField::Temperature,
        o.temperature->0,
    ) + pair_if(
        o.max_tokens is Some && o.max_tokens != Some(DEFAULT_ANALYSIS_MAX_TOKENS),
        OptionField::MaxTokens,
        decimal(o.max_tokens->0 as nat),
    ) + pair_if(
        o.instructions_path is Some,
        OptionField::InstructionsFile,
        o.instructions_path->0,
    )
}

/// The arguments that hand enabled options on to a child tracker; nothing
/// when the capture is disabled.
pub open spec fn intelligence_args(o: OptionsView) -> Seq<Seq<char>> {
    if o.enabled {
        seq!["--intelligence-dataset"@] + flag_pairs(emitted_settings(o))
    } else {
        Seq::empty()
    }
}

proof fn lemma_flag_pairs_concat(a: Seq<(OptionField, Seq<char>)>, b: Seq<(OptionField, Seq<char>)>)
    ensures
        flag_pairs(a + b) == flag_pairs(a) + flag_pairs(b),
    decreases a.len(),
{
    if a.len() == 0 {
        assert(a + b =~= b);
    } else {
        lemma_flag_pairs_concat(a.drop_first(), b);
        assert((a + b).drop_first() =~= a.drop_first() + b);
    }
}

proof fn lemma_flag_pairs_one(f: OptionField, v: Seq<char>)
    ensures
        flag_pairs(seq![(f, v)]) == seq![field_flag(f), v],
{
    assert(seq![(f, v)].drop_first() =~= Seq::<(OptionField, Seq<char>)>::empty());
    assert(flag_pairs(Seq::<(OptionField, Seq<char>)>::empty()) == Seq::<Seq<char>>::empty());
    assert(seq![field_flag(f), v] + Seq::<Seq<char>>::empty() =~= seq![field_flag(f), v]);
}

fn push_setting_if(
    args: &mut Vec<String>,
    cond: bool,
    f: OptionField,
    value: &str,
    Ghost(done): Ghost<Seq<(OptionField, Seq<char>)>>,
    Ghost(base): Ghost<Seq<Seq<char>>>,
)
    requires
        views(old(args)@) == base + flag_pairs(done),
    ensures
        views(final(args)@) == base + flag_pairs(done + pair_if(cond, f, value@)),
{
    if cond {
        args.push(String::from_str(field_flag_str(f)));
        args.push(String::from_str(value));
        proof {
            lemma_flag_pairs_concat(done, seq![(f, value@)]);
            lemma_flag_pairs_one(f, value@);
            assert(views(final(args)@) =~= views(old(args)@) + seq![field_flag(f), value@]);
            assert(base + flag_pairs(done) + seq![field_flag(f), value@] =~= base + (flag_pairs(
                done,
            ) + seq![field_flag(f), value@]));
        }
    } else {
        assert(done + pair_if(cond, f, value@) =~= done);
    }
}

fn option_text(o: &Option<String>) -> (r: &str)
    ensures
        o matches Some(s) ==> r@ == s@,
{
    match o {
        Some(s) => s.as_str(),
        None => "",
    }
}

/// Appends the arguments that hand the options on to a child tracker.
pub fn append_intelligence_args(args: &mut Vec<String>, options: &IntelligenceOptions)
    ensures
        views(final(args)@) == views(old(args)@) + intelligence_args(options@),
{
    if !options.enabled {
        assert(views(args@) + intelligence_args(options@) =~= views(args@));
        return;
    }
    let ghost o = options@;
    let ghost base = views(args@) + seq!["--intelligence-dataset"@];
    let ghost done: Seq<(OptionField, Seq<char>)> = Seq::empty();
    args.push(String::from_str("--intelligence-dataset"));
    assert(views(args@) =~= base + flag_pairs(done));
    let c1 = !same_path(options.output_root.as_str(), DEFAULT_OUTPUT_ROOT);
    push_setting_if(args, c1, OptionField::Output, options.output_root.as_str(), Ghost(done), Ghost(base));
    let ghost done = done + pair_if(c1, OptionField::Output, o.output_root);
    let c2 = options.provider != ModelProvider::LmStudio;
    push_setting_if(args, c2, OptionField::Provider, options.provider.as_str(), Ghost(done), Ghost(base));
    let ghost done = done + pair_if(c2, OptionField::Provider, provider_name(o.provider));
    let c3 = options.endpoint.is_some();
    let v3 = option_text(&options.endpoint);
    push_setting_if(args, c3, OptionField::Endpoint, v3, Ghost(done), Ghost(base));
    assert(pair_if(c3, OptionField::Endpoint, v3@) == pair_if(o.endpoint is Some, OptionField::Endpoint, o.endpoint->0));
    let ghost done = done + pair_if(o.endpoint is Some, OptionField::Endpoint, o.endpoint->0);
    let c4 = options.model.is_some();
    let v4 = option_text(&options.model);
    push_setting_if(args, c4, OptionField::Model, v4, Ghost(done), Ghost(base));
    assert(pair_if(c4, OptionField::Model, v4@) == pair_if(o.model is Some, OptionField::Model, o.model->0));
    let ghost done = done + pair_if(o.model is Some, OptionField::Model, o.model->0);
    let c5 = options.api_key.is_some();
    let v5 = option_text(&options.api_key);
    push_setting_if(args, c5, OptionField::ApiKey, v5, Ghost(done), Ghost(base));
    assert(pair_if(c5, OptionField::ApiKey, v5@) == pair_if(o.api_key is Some, OptionField::ApiKey, o.api_key->0));
    let ghost done = done + pair_if(o.api_key is Some, OptionField::ApiKey, o.api_key->0);
    let c6 = options.temperature.is_some();
    let v6 = option_text(&options.temperature);
    push_setting_if(args, c6, OptionField::Temperature, v6, Ghost(done), Ghost(base));
    assert(pair_if(c6, OptionField::Temperature, v6@) == pair_if(o.temperature is Some, OptionField::Temperature, o.temperature->0));
    let ghost done = done + pair_if(o.temperature is Some, OptionField::Temperature, o.temperature->0);
    let n7: u32 = match options.max_tokens {
        Some(n) => n,
        None => 0,
    };
    let c7 = options.max_tokens.is_some() && n7 != DEFAULT_ANALYSIS_MAX_TOKENS;
    let v7 = decimal_string(n7 as u64);
    push_setting_if(args, c7, OptionField::MaxTokens, v7.as_str(), Ghost(done), Ghost(base));
    assert(pair_if(c7, OptionField::MaxTokens, v7@) == pair_if(
        o.max_tokens is Some && o.max_tokens != Some(DEFAULT_ANALYSIS_MAX_TOKENS),
        OptionField::MaxTokens,
        decimal(o.max_tokens->0 as nat),
    ));
    let ghost done = done + pair_if(
        o.max_tokens is Some && o.max_tokens != Some(DEFAULT_ANALYSIS_MAX_TOKENS),
        OptionField::MaxTokens,
        decimal(o.max_tokens->0 as nat),
    );
    let c8 = options.instructions_path.is_some();
    let v8 = option_text(&options.instructions_path);
    push_setting_if(args, c8, OptionField::InstructionsFile, v8, Ghost(done), Ghost(base));
    assert(pair_if(c8, OptionField::InstructionsFile, v8@) == pair_if(o.instructions_path is Some, OptionField::InstructionsFile, o.instructions_path->0));
    proof {
        let done = done + pair_if(o.instructions_path is Some, OptionField::InstructionsFile, o.instructions_path->0);
        assert(done =~= emitted_settings(o));
        assert(views(old(args)@) + intelligence_args(o) =~= base + flag_pairs(done));
    }
}


/// Reading intelligence options from `index` on, until an argument is not
/// one of them or the arguments end.
pub open spec fn parse_from(args: Seq<Seq<char>>, index: int, o: OptionsView) -> Result<
    OptionsView,
    Seq<char>,
>
    decreases args.len() - index,
{
    if index < 0 || index >= args.len() {
        Ok(o)
    } else {
        let out = parse_step(args, index, o);
        match out.result {
            Err(e) => Err(e),
            Ok(false) => Ok(out.options),
            Ok(true) => if index < out.index <= args.len() {
                parse_from(args, out.index, out.options)
            } else {
                Ok(out.options)
            },
        }
    }
}

/// Applying settings in order.
pub open spec fn apply_settings(o: OptionsView, ps: Seq<(OptionField, Seq<char>)>) -> Result<
    OptionsView,
    Seq<char>,
>
    decreases ps.len(),
{
    if ps.len() == 0 {
        Ok(o)
    } else {
        match with_field(o, ps[0].0, ps[0].1) {
            Ok(o2) => apply_settings(o2, ps.drop_first()),
            Err(e) => Err(e),
        }
    }
}

proof fn lemma_apply_settings_concat(
    o: OptionsView,
    a: Seq<(OptionField, Seq<char>)>,
    b: Seq<(OptionField, Seq<char>)>,
)
    ensures
        apply_settings(o, a + b) == match apply_settings(o, a) {
            Ok(o2) => apply_settings(o2, b),
            Err(e) => Err(e),
        },
    decreases a.len(),
{
    if a.len() == 0 {
        assert(a + b =~= b);
    } else {
        assert((a + b).drop_first() =~= a.drop_first() + b);
        assert((a + b)[0] == a[0]);
        match with_field(o, a[0].0, a[0].1) {
            Ok(o2) => lemma_apply_settings_concat(o2, a.drop_first(), b),
            Err(e) => {},
        }
    }
}

proof fn lemma_apply_pair_if(o: OptionsView, cond: bool, f: OptionField, v: Seq<char>)
    ensures
        apply_settings(o, pair_if(cond, f, v)) == if cond {
            with_field(o, f, v)
        } else {
            Ok(o)
        },
{
    if cond {
        let ps = seq![(f, v)];
        assert(ps.drop_first() =~= Seq::<(OptionField, Seq<char>)>::empty());
        match with_field(o, f, v) {
            Ok(o2) => {
                assert(apply_settings(o2, ps.drop_first()) == Ok::<OptionsView, Seq<char>>(o2));
            },
            Err(e) => {},
        }
    }
}

/// Each flag reads as the option it sets.
proof fn lemma_classify_flag(f: OptionField)
    ensures
        classify_arg(field_flag(f)) == ArgMatch::Separate(f),
{
    reveal_strlit("--intelligence");
    reveal_strlit("--intelligence-dataset");
    reveal_strlit("--intelligence-output");
    reveal_strlit("--intelligence-provider");
    reveal_strlit("--intelligence-endpoint");
    reveal_strlit("--intelligence-model");
    reveal_strlit("--intelligence-api-key");
    reveal_strlit("--intelligence-temperature");
    reveal_strlit("--intelligence-max-tokens");
    reveal_strlit("--intelligence-instructions-file");
    let a = field_flag(f);
    assert(a != "--intelligence"@ && a != "--intelligence-dataset"@) by {
        assert(a.len() != "--intelligence"@.len());
        if a.len() == "--intelligence-dataset"@.len() {
            assert(a[15] != "--intelligence-dataset"@[15]);
        }
    }
    if f != OptionField::Output {
        assert(a != field_flag(OptionField::Output)) by {
            if a.len() == field_flag(OptionField::Output).len() {
                assert(a[15] != field_flag(OptionField::Output)[15]);
            }
        }
    }
    if f != OptionField::Output && f != OptionField::Provider {
        assert(a != field_flag(OptionField::Provider)) by {
            if a.len() == field_flag(OptionField::Provider).len() {
                assert(a[15] != field_flag(OptionField::Provider)[15]);
            }
        }
    }
    if f != OptionField::Output && f != OptionField::Provider && f != OptionField::Endpoint {
        assert(a != field_flag(OptionField::Endpoint)) by {
            if a.len() == field_flag(OptionField::Endpoint).len() {
                assert(a[15] != field_flag(OptionField::Endpoint)[15]);
            }
        }
    }
    if f != OptionField::Output && f != OptionField::Provider && f != OptionField::Endpoint && f
        != OptionField::Model {
        assert(a != field_flag(OptionField::Model)) by {
            if a.len() == field_flag(OptionField::Model).len() {
                assert(a[15] != field_flag(OptionField::Model)[15]);
            }
        }
    }
    if f == OptionField::Temperature || f == OptionField::MaxTokens || f
        == OptionField::InstructionsFile {
        assert(a != field_flag(OptionField::ApiKey)) by {
            if a.len() == field_flag(OptionField::ApiKey).len() {
                assert(a[15] != field_flag(OptionField::ApiKey)[15]);
            }
        }
    }
    if f == OptionField::MaxTokens || f == OptionField::InstructionsFile {
        assert(a != field_flag(OptionField::Temperature)) by {
            if a.len() == field_flag(OptionField::Temperature).len() {
                assert(a[15] != field_flag(OptionField::Temperature)[15]);
            }
        }
    }
    if f == OptionField::InstructionsFile {
        assert(a != field_flag(OptionField::MaxTokens)) by {
            if a.len() == field_flag(OptionField::MaxTokens).len() {
                assert(a[15] != field_flag(OptionField::MaxTokens)[15]);
            }
        }
    }
}

/// Every step of reading the arguments from `index` on takes an
/// intelligence option (`Ok(true)`) and moves forward, and the last step
/// stops exactly at the end of the arguments.
pub open spec fn reads_through(args: Seq<Seq<char>>, index: int, o: OptionsView) -> bool
    decreases args.len() - index,
{
    if index < 0 || index >= args.len() {
        index == args.len()
    } else {
        let out = parse_step(args, index, o);
        if out.result == Ok::<bool, Seq<char>>(true) && index < out.index <= args.len() {
            reads_through(args, out.index, out.options)
        } else {
            false
        }
    }
}

proof fn lemma_parse_settings(
    args: Seq<Seq<char>>,
    i: int,
    o: OptionsView,
    ps: Seq<(OptionField, Seq<char>)>,
)
    requires
        0 <= i <= args.len(),
        args.subrange(i, args.len() as int) == flag_pairs(ps),
        apply_settings(o, ps) is Ok,
    ensures
        parse_from(args, i, o) == apply_settings(o, ps),
        reads_through(args, i, o),
    decreases ps.len(),
{
    if ps.len() == 0 {
        assert(args.subrange(i, args.len() as int).len() == 0);
    } else {
        let f = ps[0].0;
        let v = ps[0].1;
        let rest = args.subrange(i, args.len() as int);
        assert(flag_pairs(ps) == seq![field_flag(f), v] + flag_pairs(ps.drop_first()));
        assert(rest.len() >= 2);
        assert(rest[0] == field_flag(f));
        assert(rest[1] == v);
        assert(args[i] == field_flag(f));
        assert(args[i + 1] == v);
        lemma_classify_flag(f);
        let o2 = with_field(o, f, v)->Ok_0;
        assert(args.subrange(i + 2, args.len() as int) =~= flag_pairs(ps.drop_first())) by {
            assert(rest.subrange(2, rest.len() as int) =~= args.subrange(i + 2, args.len() as int));
        }
        lemma_parse_settings(args, i + 2, o2, ps.drop_first());
    }
}

/// Reading back the arguments that hand enabled options on gives the same
/// options when a budget is set and a given temperature reads as a float;
/// an output root that names the default (as a path) reads back as the
/// default itself.  Read one call at a time, every call takes an option
/// and the last one stops exactly at the end of the arguments.
pub proof fn lemma_parse_undoes_append(o: OptionsView)
    requires
        o.enabled,
        o.max_tokens is Some,
        o.temperature matches Some(t) ==> is_float_literal(t),
    ensures
        parse_from(intelligence_args(o), 0, default_options()) == Ok::<OptionsView, Seq<char>>(
            if root_is_default(o.output_root) {
                OptionsView { output_root: DEFAULT_OUTPUT_ROOT@, ..o }
            } else {
                o
            },
        ),
        reads_through(intelligence_args(o), 0, default_options()),
{
    let expected = if root_is_default(o.output_root) {
        OptionsView { output_root: DEFAULT_OUTPUT_ROOT@, ..o }
    } else {
        o
    };
    let args = intelligence_args(o);
    let ps = emitted_settings(o);
    reveal_strlit("--intelligence");
    reveal_strlit("--intelligence-dataset");
    assert(classify_arg(args[0]) == ArgMatch::Enable);
    let d = enabled(default_options());
    let p1 = pair_if(!root_is_default(o.output_root), OptionField::Output, o.output_root);
    let p2 = pair_if(o.provider != ModelProvider::LmStudio, OptionField::Provider, provider_name(o.provider));
    let p3 = pair_if(o.endpoint is Some, OptionField::Endpoint, o.endpoint->0);
    let p4 = pair_if(o.model is Some, OptionField::Model, o.model->0);
    let p5 = pair_if(o.api_key is Some, OptionField::ApiKey, o.api_key->0);
    let p6 = pair_if(o.temperature is Some, OptionField::Temperature, o.temperature->0);
    let p7 = pair_if(
        o.max_tokens is Some && o.max_tokens != Some(DEFAULT_ANALYSIS_MAX_TOKENS),
        OptionField::MaxTokens,
        decimal(o.max_tokens->0 as nat),
    );
    let p8 = pair_if(o.instructions_path is Some, OptionField::InstructionsFile, o.instructions_path->0);
    lemma_provider_name_round_trip(o.provider);
    lemma_parse_u32_of_decimal(o.max_tokens->0);
    let s1 = OptionsView { output_root: expected.output_root, ..d };
    lemma_apply_pair_if(d, !root_is_default(o.output_root), OptionField::Output, o.output_root);
    assert(apply_settings(d, p1) == Ok::<OptionsView, Seq<char>>(s1));
    let s2 = OptionsView { provider: o.provider, ..s1 };
    lemma_apply_pair_if(s1, o.provider != ModelProvider::LmStudio, OptionField::Provider, provider_name(o.provider));
    assert(apply_settings(s1, p2) == Ok::<OptionsView, Seq<char>>(s2));
    let s3 = OptionsView { endpoint: o.endpoint, ..s2 };
    lemma_apply_pair_if(s2, o.endpoint is Some, OptionField::Endpoint, o.endpoint->0);
    assert(apply_settings(s2, p3) == Ok::<OptionsView, Seq<char>>(s3));
    let s4 = OptionsView { model: o.model, ..s3 };
    lemma_apply_pair_if(s3, o.model is Some, OptionField::Model, o.model->0);
    assert(apply_settings(s3, p4) == Ok::<OptionsView, Seq<char>>(s4));
    let s5 = OptionsView { api_key: o.api_key, ..s4 };
    lemma_apply_pair_if(s4, o.api_key is Some, OptionField::ApiKey, o.api_key->0);
    assert(apply_settings(s4, p5) == Ok::<OptionsView, Seq<char>>(s5));
    let s6 = OptionsView { temperature: o.temperature, ..s5 };
    lemma_apply_pair_if(s5, o.temperature is Some, OptionField::Temperature, o.temperature->0);
    assert(apply_settings(s5, p6) == Ok::<OptionsView, Seq<char>>(s6));
    let s7 = OptionsView { max_tokens: o.max_tokens, ..s6 };
    lemma_apply_pair_if(
        s6,
        o.max_tokens is Some && o.max_tokens != Some(DEFAULT_ANALYSIS_MAX_TOKENS),
        OptionField::MaxTokens,
        decimal(o.max_tokens->0 as nat),
    );
    assert(apply_settings(s6, p7) == Ok::<OptionsView, Seq<char>>(s7));
    let s8 = OptionsView { instructions_path: o.instructions_path, ..s7 };
    lemma_apply_pair_if(s7, o.instructions_path is Some, OptionField::InstructionsFile, o.instructions_path->0);
    assert(apply_settings(s7, p8) == Ok::<OptionsView, Seq<char>>(s8));
    assert(s8 == expected);
    lemma_apply_settings_concat(d, p1, p2);
    lemma_apply_settings_concat(d, p1 + p2, p3);
    lemma_apply_settings_concat(d, p1 + p2 + p3, p4);
    lemma_apply_settings_concat(d, p1 + p2 + p3 + p4, p5);
    lemma_apply_settings_concat(d, p1 + p2 + p3 + p4 + p5, p6);
    lemma_apply_settings_concat(d, p1 + p2 + p3 + p4 + p5 + p6, p7);
    lemma_apply_settings_concat(d, p1 + p2 + p3 + p4 + p5 + p6 + p7, p8);
    assert(apply_settings(d, ps) == Ok::<OptionsView, Seq<char>>(expected));
    assert(args.subrange(1, args.len() as int) =~= flag_pairs(ps));
    lemma_parse_settings(args, 1, d, ps);
    assert(parse_step(args, 0, default_options()).index == 1);
}


/// Both enabling flags are read the same way: the argument is taken, the
/// index moves past it, and the options are the old ones with the capture
/// switched on.
pub proof fn lemma_enable_flags_switch_capture_on(args: Seq<Seq<char>>, index: int, o: OptionsView)
    requires
        0 <= index < args.len(),
        args[index] == "--intelligence"@ || args[index] == "--intelligence-dataset"@,
    ensures
        parse_step(args, index, o).result == Ok::<bool, Seq<char>>(true),
        parse_step(args, index, o).index == index + 1,
        parse_step(args, index, o).options == (OptionsView { enabled: true, ..o }),
{
}

} // verus!
