use ebpf_tracker::analysis::ModelProvider;
use ebpf_tracker::intelligence::{
    append_intelligence_args, classify, parse_intelligence_arg, ArgMatch, IntelligenceOptions,
    OptionField,
};

fn args(words: &[&str]) -> Vec<String> {
    words.iter().map(|w| w.to_string()).collect()
}

fn parse_all(words: &[String]) -> Result<IntelligenceOptions, String> {
    let mut options = IntelligenceOptions::default();
    let mut index = 0usize;
    while index < words.len() {
        if !parse_intelligence_arg(&words.to_vec(), &mut index, &mut options)? {
            break;
        }
    }
    Ok(options)
}

#[test]
fn defaults_are_disabled_lm_studio() {
    let options = IntelligenceOptions::default();
    assert!(!options.is_enabled());
    assert_eq!(options.output_root, "datasets");
    assert_eq!(options.provider, ModelProvider::LmStudio);
    assert_eq!(options.max_tokens, Some(900));
    let mut out = Vec::new();
    append_intelligence_args(&mut out, &options);
    assert!(out.is_empty());
}

#[test]
fn separate_and_inline_values_are_read() {
    let words = args(&[
        "--intelligence-provider",
        "openai",
        "--intelligence-endpoint=http://h/v1",
        "--intelligence-max-tokens",
        "+64",
        "--intelligence-temperature=0.5",
        "--intelligence-output=--intelligence-output=out",
        "--other",
    ]);
    let mut options = IntelligenceOptions::default();
    let mut index = 0usize;
    assert_eq!(parse_intelligence_arg(&words, &mut index, &mut options), Ok(true));
    assert_eq!(index, 2);
    assert!(options.enabled);
    assert_eq!(options.provider, ModelProvider::OpenAiCompatible);
    assert_eq!(parse_intelligence_arg(&words, &mut index, &mut options), Ok(true));
    assert_eq!(options.endpoint.as_deref(), Some("http://h/v1"));
    assert_eq!(parse_intelligence_arg(&words, &mut index, &mut options), Ok(true));
    assert_eq!(options.max_tokens, Some(64));
    assert_eq!(parse_intelligence_arg(&words, &mut index, &mut options), Ok(true));
    assert_eq!(options.temperature.as_deref(), Some("0.5"));
    assert_eq!(parse_intelligence_arg(&words, &mut index, &mut options), Ok(true));
    assert_eq!(options.output_root, "out");
    assert_eq!(index, 7);
    assert_eq!(parse_intelligence_arg(&words, &mut index, &mut options), Ok(false));
    assert_eq!(index, 7);
    let mut past = 8usize;
    assert_eq!(parse_intelligence_arg(&words, &mut past, &mut options), Ok(false));
}

#[test]
fn refused_values_are_reported() {
    let mut options = IntelligenceOptions::default();
    let mut index = 0usize;
    assert_eq!(
        parse_intelligence_arg(&args(&["--intelligence-model"]), &mut index, &mut options),
        Err("missing value for --intelligence-model".to_string())
    );
    assert!(!options.enabled);
    assert_eq!(
        parse_intelligence_arg(
            &args(&["--intelligence-provider=ollama"]),
            &mut index,
            &mut options
        ),
        Err("unsupported model provider: ollama".to_string())
    );
    assert!(options.enabled);
    assert_eq!(index, 0);
    assert_eq!(
        parse_intelligence_arg(
            &args(&["--intelligence-temperature", "warm"]),
            &mut index,
            &mut options
        ),
        Err("invalid intelligence temperature: warm".to_string())
    );
    assert_eq!(
        parse_intelligence_arg(
            &args(&["--intelligence-max-tokens=-1"]),
            &mut index,
            &mut options
        ),
        Err("invalid intelligence max tokens: -1".to_string())
    );
    assert_eq!(
        parse_intelligence_arg(
            &args(&["--intelligence-max-tokens", "4294967296"]),
            &mut index,
            &mut options
        ),
        Err("invalid intelligence max tokens: 4294967296".to_string())
    );
}

#[test]
fn flags_are_classified() {
    assert_eq!(classify("--intelligence"), ArgMatch::Enable);
    assert_eq!(classify("--intelligence-dataset"), ArgMatch::Enable);
    assert_eq!(
        classify("--intelligence-api-key"),
        ArgMatch::Separate(OptionField::ApiKey)
    );
    assert_eq!(
        classify("--intelligence-instructions-file=notes.md"),
        ArgMatch::Inline(OptionField::InstructionsFile)
    );
    assert_eq!(classify("--intelligence-outputs"), ArgMatch::NoMatch);
    assert_eq!(classify("--intelligence="), ArgMatch::NoMatch);
}

#[test]
fn appended_arguments_read_back_as_the_same_options() {
    let options = IntelligenceOptions {
        enabled: true,
        output_root: "/data/runs".to_string(),
        provider: ModelProvider::OpenAiCompatible,
        endpoint: Some("http://h/v1".to_string()),
        model: Some("m".to_string()),
        api_key: Some("--intelligence".to_string()),
        temperature: Some("0.7".to_string()),
        max_tokens: Some(128),
        instructions_path: Some("notes.md".to_string()),
    };
    let mut words = Vec::new();
    append_intelligence_args(&mut words, &options);
    assert_eq!(
        words,
        args(&[
            "--intelligence-dataset",
            "--intelligence-output",
            "/data/runs",
            "--intelligence-provider",
            "openai-compatible",
            "--intelligence-endpoint",
            "http://h/v1",
            "--intelligence-model",
            "m",
            "--intelligence-api-key",
            "--intelligence",
            "--intelligence-temperature",
            "0.7",
            "--intelligence-max-tokens",
            "128",
            "--intelligence-instructions-file",
            "notes.md",
        ])
    );
    let back = parse_all(&words).expect("appended arguments parse");
    assert!(back.enabled);
    assert_eq!(back.output_root, options.output_root);
    assert_eq!(back.provider, options.provider);
    assert_eq!(back.endpoint, options.endpoint);
    assert_eq!(back.model, options.model);
    assert_eq!(back.api_key, options.api_key);
    assert_eq!(back.temperature, options.temperature);
    assert_eq!(back.max_tokens, options.max_tokens);
    assert_eq!(back.instructions_path, options.instructions_path);
}

#[test]
fn defaults_are_not_repeated_when_appending() {
    let mut options = IntelligenceOptions::default();
    options.enabled = true;
    options.output_root = "datasets/".to_string();
    let mut words = vec!["--log-enable".to_string()];
    append_intelligence_args(&mut words, &options);
    assert_eq!(words, args(&["--log-enable", "--intelligence-dataset"]));
    options.max_tokens = None;
    let mut none = Vec::new();
    append_intelligence_args(&mut none, &options);
    assert_eq!(none, args(&["--intelligence-dataset"]));
}

#[test]
fn output_roots_are_compared_as_paths() {
    for (root, emitted) in [
        ("datasets", false),
        ("datasets/.", false),
        ("datasets//", false),
        ("./datasets", true),
        ("/datasets", true),
        ("datasets/x/..", true),
    ] {
        let mut options = IntelligenceOptions::default();
        options.enabled = true;
        options.output_root = root.to_string();
        let mut words = Vec::new();
        append_intelligence_args(&mut words, &options);
        assert_eq!(
            words.contains(&"--intelligence-output".to_string()),
            emitted,
            "root {root}"
        );
    }
}

#[test]
fn every_read_back_step_takes_an_option() {
    let mut options = IntelligenceOptions::default();
    options.enabled = true;
    options.output_root = "runs".to_string();
    options.model = Some("m".to_string());
    options.max_tokens = Some(64);
    let mut words = Vec::new();
    append_intelligence_args(&mut words, &options);
    let mut back = IntelligenceOptions::default();
    let mut index = 0usize;
    let mut steps = 0;
    while index < words.len() {
        assert_eq!(parse_intelligence_arg(&words, &mut index, &mut back), Ok(true));
        steps += 1;
    }
    assert_eq!(index, words.len());
    assert_eq!(steps, 4);
    assert_eq!(back.output_root, "runs");
    assert_eq!(back.model.as_deref(), Some("m"));
    assert_eq!(back.max_tokens, Some(64));
}
