//! The `docker compose run` invocation that wraps a traced command.

use vstd::prelude::*;
use vstd::string::StringExecFns;

use crate::runtime::{runtime_env, runtime_env_assignment, RuntimeProfile};
use crate::text::{concat, views};

verus! {

/// Name of the variable that asks for an interactive terminal in the container.
pub const INTERACTIVE_PTY_ENV_NAME: &'static str = "EBPF_TRACKER_INTERACTIVE_PTY";

/// How trace events leave the kernel.
#[derive(Clone, Copy, Debug, PartialEq, Eq, Structural)]
pub enum TransportMode {
    Bpftrace,
    Perf,
}

pub open spec fn transport_name(t: TransportMode) -> Seq<char> {
    match t {
        TransportMode::Bpftrace => "bpftrace"@,
        TransportMode::Perf => "perf"@,
    }
}

impl TransportMode {
    pub fn as_str(self) -> (s: &'static str)
        ensures
            s@ == transport_name(self),
    {
        match self {
            TransportMode::Bpftrace => "bpftrace",
            TransportMode::Perf => "perf",
        }
    }
}

/// Everything a compose run is built from.
pub struct ComposeRunConfig<'a> {
    pub compose_file: &'a str,
    pub runtime_override_file: Option<&'a str>,
    pub project_dir: &'a str,
    pub runtime_profile: RuntimeProfile,
    pub transport_mode: TransportMode,
    pub extra_env: &'a Vec<(String, String)>,
    pub probe_file: Option<&'a str>,
    pub perf_events: Option<&'a str>,
    pub wrapped_command: &'a Vec<String>,
}

/// A program to start, its arguments, and the `PROJECT_DIR` it is given.
#[derive(Debug)]
pub struct ComposeInvocation {
    pub program: String,
    pub args: Vec<String>,
    pub project_dir: String,
}

/// `-e KEY=VALUE` for each extra variable, in order.
pub open spec fn env_args(pairs: Seq<(String, String)>) -> Seq<Seq<char>>
    decreases pairs.len(),
{
    if pairs.len() == 0 {
        Seq::empty()
    } else {
        env_args(pairs.drop_last()) + seq!["-e"@, pairs.last().0@ + "="@ + pairs.last().1@]
    }
}

pub open spec fn opt_text(o: Option<&str>) -> Option<Seq<char>> {
    match o {
        Some(s) => Some(s@),
        None => None,
    }
}

/// `-e` with a value when there is one.
pub open spec fn env_if(value: Option<Seq<char>>, prefix: Seq<char>) -> Seq<Seq<char>> {
    match value {
        Some(v) => seq!["-e"@, prefix + v],
        None => Seq::empty(),
    }
}

/// The arguments of `docker`: the compose files, a fresh build-and-remove
/// run with the transport, the runtime's cache, the probe and perf events
/// when given, the terminal request when wanted and the extra variables,
/// then `bpftrace` and the wrapped command.
pub open spec fn compose_args(
    compose_file: Seq<char>,
    runtime_override_file: Option<Seq<char>>,
    project_dir: Seq<char>,
    profile: RuntimeProfile,
    transport: TransportMode,
    extra_env: Seq<(String, String)>,
    probe_file: Option<Seq<char>>,
    perf_events: Option<Seq<char>>,
    interactive_pty: bool,
    wrapped_command: Seq<Seq<char>>,
) -> Seq<Seq<char>> {
    seq!["compose"@, "-f"@, compose_file] + (match runtime_override_file {
        Some(o) => seq!["-f"@, o],
        None => Seq::empty(),
    }) + seq![
        "run"@,
        "--build"@,
        "--rm"@,
        "-e"@,
        "EBPF_TRACKER_TRANSPORT="@ + transport_name(transport),
        "-e"@,
        runtime_env(project_dir, profile),
    ] + env_if(probe_file, "EBPF_TRACKER_PROBE="@) + env_if(perf_events, "EBPF_TRACKER_PERF_EVENTS="@)
        + (if interactive_pty {
        seq!["-e"@, INTERACTIVE_PTY_ENV_NAME@ + "=1"@]
    } else {
        Seq::empty()
    }) + env_args(extra_env) + seq!["bpftrace"@] + wrapped_command
}

fn push_text(args: &mut Vec<String>, s: String)
    ensures
        views(final(args)@) == views(old(args)@).push(s@),
{
    args.push(s);
    assert(views(args@) =~= views(old(args)@).push(s@));
}

fn push_env_if(args: &mut Vec<String>, value: Option<&str>, prefix: &str)
    ensures
        views(final(args)@) == views(old(args)@) + env_if(opt_text(value), prefix@),
{
    if let Some(v) = value {
        push_text(args, String::from_str("-e"));
        push_text(args, concat(prefix, v));
    }
    assert(views(args@) =~= views(old(args)@) + env_if(opt_text(value), prefix@));
}

fn push_env_pairs(args: &mut Vec<String>, pairs: &Vec<(String, String)>)
    ensures
        views(final(args)@) == views(old(args)@) + env_args(pairs@),
{
    let ghost start = views(args@);
    let mut i: usize = 0;
    assert(start + env_args(pairs@.take(0)) =~= start);
    while i < pairs.len()
        invariant
            i <= pairs.len(),
            views(args@) == start + env_args(pairs@.take(i as int)),
        decreases pairs.len() - i,
    {
        let (k, v) = &pairs[i];
        let mut kv = String::from_str(k.as_str());
        kv.append("=");
        kv.append(v.as_str());
        push_text(args, String::from_str("-e"));
        push_text(args, kv);
        assert(pairs@.take(i + 1).drop_last() =~= pairs@.take(i as int));
        assert(views(args@) =~= start + env_args(pairs@.take(i + 1)));
        i = i + 1;
    }
    assert(pairs@.take(pairs.len() as int) =~= pairs@);
}

fn push_all(args: &mut Vec<String>, words: &Vec<String>)
    ensures
        views(final(args)@) == views(old(args)@) + views(words@),
{
    let ghost start = views(args@);
    let mut j: usize = 0;
    while j < words.len()
        invariant
            j <= words.len(),
            views(args@) == start + views(words@).take(j as int),
        decreases words.len() - j,
    {
        push_text(args, words[j].clone());
        assert(views(words@).take(j + 1) =~= views(words@).take(j as int).push(words@[j as int]@));
        j = j + 1;
    }
    assert(views(words@).take(words.len() as int) =~= views(words@));
}

fn compose_head(config: &ComposeRunConfig) -> (args: Vec<String>)
    ensures
        views(args@) == seq!["compose"@, "-f"@, config.compose_file@] + (match opt_text(
            config.runtime_override_file,
        ) {
            Some(o) => seq!["-f"@, o],
            None => Seq::empty(),
        }) + seq![
            "run"@,
            "--build"@,
            "--rm"@,
            "-e"@,
            "EBPF_TRACKER_TRANSPORT="@ + transport_name(config.transport_mode),
            "-e"@,
            runtime_env(config.project_dir@, config.runtime_profile),
        ],
{
    let mut args: Vec<String> = Vec::new();
    push_text(&mut args, String::from_str("compose"));
    push_text(&mut args, String::from_str("-f"));
    push_text(&mut args, String::from_str(config.compose_file));
    if let Some(o) = config.runtime_override_file {
        push_text(&mut args, String::from_str("-f"));
        push_text(&mut args, String::from_str(o));
    }
    let ghost files = views(args@);
    push_text(&mut args, String::from_str("run"));
    push_text(&mut args, String::from_str("--build"));
    push_text(&mut args, String::from_str("--rm"));
    push_text(&mut args, String::from_str("-e"));
    push_text(&mut args, concat("EBPF_TRACKER_TRANSPORT=", config.transport_mode.as_str()));
    push_text(&mut args, String::from_str("-e"));
    push_text(&mut args, runtime_env_assignment(config.project_dir, config.runtime_profile));
    assert(views(args@) =~= seq!["compose"@, "-f"@, config.compose_file@] + (match opt_text(
        config.runtime_override_file,
    ) {
        Some(o) => seq!["-f"@, o],
        None => Seq::empty(),
    }) + seq![
        "run"@,
        "--build"@,
        "--rm"@,
        "-e"@,
        "EBPF_TRACKER_TRANSPORT="@ + transport_name(config.transport_mode),
        "-e"@,
        runtime_env(config.project_dir@, config.runtime_profile),
    ]);
    args
}

/// The compose run of a traced command.
pub fn build_compose_command(config: &ComposeRunConfig, interactive_pty: bool) -> (c: ComposeInvocation)
    ensures
        c.program@ == "docker"@,
        c.project_dir@ == config.project_dir@,
        views(c.args@) == compose_args(
            config.compose_file@,
            opt_text(config.runtime_override_file),
            config.project_dir@,
            config.runtime_profile,
            config.transport_mode,
            config.extra_env@,
            opt_text(config.probe_file),
            opt_text(config.perf_events),
            interactive_pty,
            views(config.wrapped_command@),
        ),
{
    let mut args = compose_head(config);
    let ghost a0 = views(args@);
    push_env_if(&mut args, config.probe_file, "EBPF_TRACKER_PROBE=");
    push_env_if(&mut args, config.perf_events, "EBPF_TRACKER_PERF_EVENTS=");
    let ghost a1 = views(args@);
    if interactive_pty {
        push_text(&mut args, String::from_str("-e"));
        push_text(&mut args, concat(INTERACTIVE_PTY_ENV_NAME, "=1"));
    }
    let ghost a2 = views(args@);
    assert(a2 =~= a1 + (if interactive_pty {
        seq!["-e"@, INTERACTIVE_PTY_ENV_NAME@ + "=1"@]
    } else {
        Seq::<Seq<char>>::empty()
    }));
    push_env_pairs(&mut args, config.extra_env);
    push_text(&mut args, String::from_str("bpftrace"));
    push_all(&mut args, config.wrapped_command);
    assert(views(args@) =~= compose_args(
        config.compose_file@,
        opt_text(config.runtime_override_file),
        config.project_dir@,
        config.runtime_profile,
        config.transport_mode,
        config.extra_env@,
        opt_text(config.probe_file),
        opt_text(config.perf_events),
        interactive_pty,
        views(config.wrapped_command@),
    ));
    ComposeInvocation {
        program: String::from_str("docker"),
        args,
        project_dir: String::from_str(config.project_dir),
    }
}


/// Where the extra variables start in the compose arguments: after
/// `compose -f FILE`, the override pair, `run --build --rm` with the
/// transport and cache variables, and the optional probe, perf and terminal
/// pairs.
pub open spec fn extra_env_offset(
    has_override: bool,
    has_probe: bool,
    has_perf: bool,
    interactive_pty: bool,
) -> int {
    3 + (if has_override { 2int } else { 0 }) + 7 + (if has_probe { 2int } else { 0 }) + (if has_perf {
        2int
    } else {
        0
    }) + (if interactive_pty { 2int } else { 0 })
}

proof fn lemma_env_args_pairs(pairs: Seq<(String, String)>)
    ensures
        env_args(pairs).len() == 2 * pairs.len(),
        forall|i: int|
            0 <= i < pairs.len() ==> #[trigger] env_args(pairs)[2 * i] == "-e"@ && env_args(pairs)[2
                * i + 1] == pairs[i].0@ + "="@ + pairs[i].1@,
    decreases pairs.len(),
{
    if pairs.len() > 0 {
        let d = pairs.drop_last();
        lemma_env_args_pairs(d);
        assert forall|i: int| 0 <= i < pairs.len() implies #[trigger] env_args(pairs)[2 * i] == "-e"@
            && env_args(pairs)[2 * i + 1] == pairs[i].0@ + "="@ + pairs[i].1@ by {
            if i < d.len() {
                assert(env_args(d)[2 * i] == "-e"@);
                assert(d[i] == pairs[i]);
            }
        }
    }
}

/// Every extra variable reaches the container as its own `-e KEY=VALUE`
/// pair, in the order given, right before `bpftrace` and the command.
pub proof fn lemma_every_extra_env_is_passed(
    compose_file: Seq<char>,
    runtime_override_file: Option<Seq<char>>,
    project_dir: Seq<char>,
    profile: RuntimeProfile,
    transport: TransportMode,
    extra_env: Seq<(String, String)>,
    probe_file: Option<Seq<char>>,
    perf_events: Option<Seq<char>>,
    interactive_pty: bool,
    wrapped_command: Seq<Seq<char>>,
)
    ensures
        ({
            let args = compose_args(
                compose_file,
                runtime_override_file,
                project_dir,
                profile,
                transport,
                extra_env,
                probe_file,
                perf_events,
                interactive_pty,
                wrapped_command,
            );
            let k = extra_env_offset(
                runtime_override_file is Some,
                probe_file is Some,
                perf_events is Some,
                interactive_pty,
            );
            &&& args.len() == k + 2 * extra_env.len() + 1 + wrapped_command.len()
            &&& forall|i: int|
                0 <= i < extra_env.len() ==> args[k + 2 * i] == "-e"@ && #[trigger] args[k + 2 * i
                    + 1] == extra_env[i].0@ + "="@ + extra_env[i].1@
            &&& args[k + 2 * extra_env.len()] == "bpftrace"@
            &&& args.subrange(k + 2 * extra_env.len() + 1, args.len() as int) == wrapped_command
        }),
{
    lemma_env_args_pairs(extra_env);
    let head = seq!["compose"@, "-f"@, compose_file] + (match runtime_override_file {
        Some(o) => seq!["-f"@, o],
        None => Seq::empty(),
    }) + seq![
        "run"@,
        "--build"@,
        "--rm"@,
        "-e"@,
        "EBPF_TRACKER_TRANSPORT="@ + transport_name(transport),
        "-e"@,
        runtime_env(project_dir, profile),
    ] + env_if(probe_file, "EBPF_TRACKER_PROBE="@) + env_if(perf_events, "EBPF_TRACKER_PERF_EVENTS="@)
        + (if interactive_pty {
        seq!["-e"@, INTERACTIVE_PTY_ENV_NAME@ + "=1"@]
    } else {
        Seq::empty()
    });
    let k = extra_env_offset(
        runtime_override_file is Some,
        probe_file is Some,
        perf_events is Some,
        interactive_pty,
    );
    assert(head.len() == k);
    let e = env_args(extra_env);
    let args = compose_args(
        compose_file,
        runtime_override_file,
        project_dir,
        profile,
        transport,
        extra_env,
        probe_file,
        perf_events,
        interactive_pty,
        wrapped_command,
    );
    assert(args =~= head + e + seq!["bpftrace"@] + wrapped_command);
    assert forall|i: int| 0 <= i < extra_env.len() implies args[k + 2 * i] == "-e"@
        && #[trigger] args[k + 2 * i + 1] == extra_env[i].0@ + "="@ + extra_env[i].1@ by {
        assert(e[2 * i] == "-e"@);
        assert(args[k + 2 * i] == e[2 * i]);
        assert(args[k + 2 * i + 1] == e[2 * i + 1]);
    }
    assert(args.subrange(k + 2 * extra_env.len() + 1, args.len() as int) =~= wrapped_command);
}

} // verus!
