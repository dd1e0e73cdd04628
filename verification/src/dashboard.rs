//! The live dashboard: the arguments the viewer is started with, and how its
//! address is picked out of the viewer's error stream.

use vstd::prelude::*;
use vstd::string::StringExecFns;

use crate::compose::{transport_name, TransportMode};
use crate::intelligence::{append_intelligence_args, intelligence_args, IntelligenceOptions};
use crate::runtime::{selection_name, RuntimeSelection};
use crate::text::{
    chars_of, decimal, decimal_string, has_prefix, string_of, sub_chars, trim, trim_ws, views,
};

verus! {

/// How events are written to standard output.
#[derive(Clone, Copy, Debug, PartialEq, Eq, Structural)]
pub enum EmitMode {
    Raw,
    Jsonl,
}

pub open spec fn emit_name(m: EmitMode) -> Seq<char> {
    match m {
        EmitMode::Raw => "raw"@,
        EmitMode::Jsonl => "jsonl"@,
    }
}

impl EmitMode {
    pub fn as_str(self) -> (s: &'static str)
        ensures
            s@ == emit_name(self),
    {
        match self {
            EmitMode::Raw => "raw",
            EmitMode::Jsonl => "jsonl",
        }
    }
}

/// What a tracer run was asked for on the command line.
#[derive(Debug)]
pub struct CliArgs {
    pub probe_file: Option<String>,
    pub config_path: Option<String>,
    pub transport_mode: TransportMode,
    pub runtime_selection: RuntimeSelection,
    pub intelligence: IntelligenceOptions,
    pub command: Vec<String>,
}

/// What a demo run was asked for on the command line.
#[derive(Debug)]
pub struct DemoArgs {
    pub transport_mode: TransportMode,
    pub list_examples: bool,
    pub example_name: Option<String>,
    pub intelligence: IntelligenceOptions,
}

pub open spec fn flag_if(value: Option<String>, flag: Seq<char>) -> Seq<Seq<char>> {
    match value {
        Some(v) => seq![flag, v@],
        None => Seq::empty(),
    }
}

/// The tracker's arguments under the dashboard: probe and config when
/// given, logging on, JSONL events, the transport and runtime, the
/// intelligence options, then `--` and the command.
pub open spec fn dashboard_tracker_args(a: &CliArgs) -> Seq<Seq<char>> {
    flag_if(a.probe_file, "--probe"@) + flag_if(a.config_path, "--config"@) + seq![
        "--log-enable"@,
        "--emit"@,
        emit_name(EmitMode::Jsonl),
        "--transport"@,
        transport_name(a.transport_mode),
        "--runtime"@,
        selection_name(a.runtime_selection),
    ] + intelligence_args(a.intelligence@) + seq!["--"@] + views(a.command@)
}

fn push_text(args: &mut Vec<String>, s: String)
    ensures
        views(final(args)@) == views(old(args)@).push(s@),
{
    args.push(s);
    assert(views(args@) =~= views(old(args)@).push(s@));
}

fn push_flag_if(args: &mut Vec<String>, value: &Option<String>, flag: &str)
    ensures
        views(final(args)@) == views(old(args)@) + flag_if(*value, flag@),
{
    if let Some(v) = value {
        push_text(args, String::from_str(flag));
        push_text(args, v.clone());
    }
    assert(views(args@) =~= views(old(args)@) + flag_if(*value, flag@));
}

pub fn build_tracker_args_for_dashboard(cli_args: &CliArgs) -> (args: Vec<String>)
    ensures
        views(args@) == dashboard_tracker_args(cli_args),
{
    let mut args: Vec<String> = Vec::new();
    push_flag_if(&mut args, &cli_args.probe_file, "--probe");
    push_flag_if(&mut args, &cli_args.config_path, "--config");
    push_text(&mut args, String::from_str("--log-enable"));
    push_text(&mut args, String::from_str("--emit"));
    push_text(&mut args, String::from_str(EmitMode::Jsonl.as_str()));
    push_text(&mut args, String::from_str("--transport"));
    push_text(&mut args, String::from_str(cli_args.transport_mode.as_str()));
    push_text(&mut args, String::from_str("--runtime"));
    push_text(&mut args, String::from_str(cli_args.runtime_selection.as_str()));
    append_intelligence_args(&mut args, &cli_args.intelligence);
    push_text(&mut args, String::from_str("--"));
    let ghost before = views(args@);
    let mut i: usize = 0;
    while i < cli_args.command.len()
        invariant
            i <= cli_args.command.len(),
            views(args@) == before + views(cli_args.command@).take(i as int),
        decreases cli_args.command.len() - i,
    {
        push_text(&mut args, cli_args.command[i].clone());
        assert(views(cli_args.command@).take(i + 1) =~= views(cli_args.command@).take(i as int).push(
            cli_args.command@[i as int]@,
        ));
        i = i + 1;
    }
    assert(views(cli_args.command@).take(cli_args.command.len() as int) =~= views(
        cli_args.command@,
    ));
    assert(views(args@) =~= dashboard_tracker_args(cli_args));
    args
}

/// A demo's arguments under the dashboard: logging on, JSONL events and the
/// transport, `--list` and the example when asked for, and the intelligence
/// options.
pub open spec fn dashboard_demo_args(d: &DemoArgs) -> Seq<Seq<char>> {
    seq![
        "demo"@,
        "--log-enable"@,
        "--emit"@,
        emit_name(EmitMode::Jsonl),
        "--transport"@,
        transport_name(d.transport_mode),
    ] + (if d.list_examples {
        seq!["--list"@]
    } else {
        Seq::empty()
    }) + (match d.example_name {
        Some(n) => seq![n@],
        None => Seq::empty(),
    }) + intelligence_args(d.intelligence@)
}

pub fn build_demo_args_for_dashboard(demo_args: &DemoArgs) -> (args: Vec<String>)
    ensures
        views(args@) == dashboard_demo_args(demo_args),
{
    let mut args: Vec<String> = Vec::new();
    push_text(&mut args, String::from_str("demo"));
    push_text(&mut args, String::from_str("--log-enable"));
    push_text(&mut args, String::from_str("--emit"));
    push_text(&mut args, String::from_str(EmitMode::Jsonl.as_str()));
    push_text(&mut args, String::from_str("--transport"));
    push_text(&mut args, String::from_str(demo_args.transport_mode.as_str()));
    let ghost fixed = views(args@);
    if demo_args.list_examples {
        push_text(&mut args, String::from_str("--list"));
    }
    let ghost listed = views(args@);
    assert(listed =~= fixed + (if demo_args.list_examples {
        seq!["--list"@]
    } else {
        Seq::<Seq<char>>::empty()
    }));
    if let Some(name) = &demo_args.example_name {
        push_text(&mut args, name.clone());
    }
    assert(views(args@) =~= listed + (match demo_args.example_name {
        Some(n) => seq![n@],
        None => Seq::<Seq<char>>::empty(),
    }));
    append_intelligence_args(&mut args, &demo_args.intelligence);
    assert(views(args@) =~= dashboard_demo_args(demo_args));
    args
}

/// The arguments `node` is started with: the viewer script, its port, and
/// after `--` this executable with the tracker's arguments.
pub open spec fn viewer_args(
    script: Seq<char>,
    port: u16,
    current_exe: Seq<char>,
    tracker_args: Seq<Seq<char>>,
) -> Seq<Seq<char>> {
    seq![script, "--port"@, decimal(port as nat), "--"@, current_exe] + tracker_args
}

pub fn dashboard_viewer_args(
    script: &str,
    port: u16,
    current_exe: &str,
    tracker_args: &Vec<String>,
) -> (args: Vec<String>)
    ensures
        views(args@) == viewer_args(script@, port, current_exe@, views(tracker_args@)),
{
    let mut args: Vec<String> = Vec::new();
    push_text(&mut args, String::from_str(script));
    push_text(&mut args, String::from_str("--port"));
    push_text(&mut args, decimal_string(port as u64));
    push_text(&mut args, String::from_str("--"));
    push_text(&mut args, String::from_str(current_exe));
    let ghost before = views(args@);
    let mut i: usize = 0;
    while i < tracker_args.len()
        invariant
            i <= tracker_args.len(),
            views(args@) == before + views(tracker_args@).take(i as int),
        decreases tracker_args.len() - i,
    {
        push_text(&mut args, tracker_args[i].clone());
        assert(views(tracker_args@).take(i + 1) =~= views(tracker_args@).take(i as int).push(
            tracker_args@[i as int]@,
        ));
        i = i + 1;
    }
    assert(views(tracker_args@).take(tracker_args.len() as int) =~= views(tracker_args@));
    args
}

/// What the viewer prints before its address.
pub open spec fn viewer_banner() -> Seq<char> {
    "live trace viewer on "@
}

/// The address a viewer line announces: the trimmed line must start with
/// the banner, and the rest, trimmed, is the address.
pub open spec fn url_of_line(line: Seq<char>) -> Option<Seq<char>> {
    let t = trim_ws(line);
    if has_prefix(t, viewer_banner()) {
        Some(trim_ws(t.subrange(viewer_banner().len() as int, t.len() as int)))
    } else {
        None
    }
}

pub open spec fn text_option(o: Option<String>) -> Option<Seq<char>> {
    match o {
        Some(s) => Some(s@),
        None => None,
    }
}

pub fn parse_dashboard_url(line: &str) -> (r: Option<String>)
    ensures
        text_option(r) == url_of_line(line@),
{
    let t = trim(line);
    let v = chars_of(t.as_str());
    let p = chars_of("live trace viewer on ");
    if !crate::text::occurs_at(&v, 0, &p) {
        return None;
    }
    let rest = sub_chars(&v, p.len(), v.len());
    let rest_text = string_of(&rest);
    Some(trim(rest_text.as_str()))
}

/// The process status a waiting parent reports: the exit code, or 128 plus
/// the signal that ended the process, or 1.
pub open spec fn status_code(code: Option<i32>, signal: Option<i32>) -> int {
    match code {
        Some(c) => c as int,
        None => match signal {
            Some(s) => 128 + s,
            None => 1,
        },
    }
}

pub fn exit_code(code: Option<i32>, signal: Option<i32>) -> (r: i32)
    requires
        code is None ==> (signal matches Some(s) ==> s <= i32::MAX - 128),
    ensures
        r as int == status_code(code, signal),
{
    if let Some(c) = code {
        return c;
    }
    if let Some(s) = signal {
        return 128 + s;
    }
    1
}


/// The text of a line of bytes, with every invalid sequence replaced
/// (`String::from_utf8_lossy`).
pub uninterp spec fn lossy_text(bytes: Seq<u8>) -> Seq<char>;

/// `String::from_utf8_lossy(bytes)`, as an owned string.
#[verifier::external_body]
fn utf8_lossy(bytes: &Vec<u8>) -> (r: String)
    ensures
        r@ == lossy_text(bytes@),
{
    String::from_utf8_lossy(bytes.as_slice()).into_owned()
}

/// The complete lines of `buf` (each with its newline) and what follows
/// the last newline, reading on from an unfinished line `cur`.
pub open spec fn scan_lines(buf: Seq<u8>, cur: Seq<u8>) -> (Seq<Seq<u8>>, Seq<u8>)
    decreases buf.len(),
{
    if buf.len() == 0 {
        (Seq::empty(), cur)
    } else if buf[0] == 10u8 {
        let next = scan_lines(buf.drop_first(), Seq::empty());
        (seq![cur.push(buf[0])] + next.0, next.1)
    } else {
        scan_lines(buf.drop_first(), cur.push(buf[0]))
    }
}

/// The address announced by the first of the lines that announces one.
pub open spec fn first_url(lines: Seq<Seq<u8>>) -> Option<Seq<char>>
    decreases lines.len(),
{
    if lines.len() == 0 {
        None
    } else {
        match url_of_line(lossy_text(lines[0])) {
            Some(u) => Some(u),
            None => first_url(lines.drop_first()),
        }
    }
}

/// Watches the viewer's error stream for its address, which is opened once.
#[derive(Debug)]
pub struct DashboardUrlWatch {
    pub opened: bool,
    pub pending: Vec<u8>,
}

/// What a chunk of the stream does to a watch: the complete lines are
/// looked at until an address is found, which is then the one to open;
/// the unfinished line is kept.  After an address, nothing more is opened.
pub open spec fn after_chunk(opened: bool, pending: Seq<u8>, chunk: Seq<u8>) -> (
    bool,
    Seq<u8>,
    Option<Seq<char>>,
) {
    let scanned = scan_lines(pending + chunk, Seq::empty());
    if opened {
        (true, scanned.1, None)
    } else {
        let url = first_url(scanned.0);
        (url is Some, scanned.1, url)
    }
}

/// What the end of the stream opens: the unfinished last line's address,
/// unless one was opened already.
pub open spec fn at_end(opened: bool, pending: Seq<u8>) -> Option<Seq<char>> {
    if !opened && pending.len() > 0 {
        url_of_line(lossy_text(pending))
    } else {
        None
    }
}

impl DashboardUrlWatch {
    pub fn new() -> (w: Self)
        ensures
            !w.opened,
            w.pending@ == Seq::<u8>::empty(),
    {
        DashboardUrlWatch { opened: false, pending: Vec::new() }
    }

    /// Takes the next chunk of the stream; returns the address to open, if any.
    pub fn feed(&mut self, chunk: &Vec<u8>) -> (r: Option<String>)
        ensures
            (final(self).opened, final(self).pending@, text_option(r)) == after_chunk(
                old(self).opened,
                old(self).pending@,
                chunk@,
            ),
    {
        let ghost all = self.pending@ + chunk@;
        let ghost was_opened = self.opened;
        let mut buf: Vec<u8> = Vec::new();
        let mut i: usize = 0;
        while i < self.pending.len()
            invariant
                i <= self.pending.len(),
                buf@ == self.pending@.take(i as int),
            decreases self.pending.len() - i,
        {
            buf.push(self.pending[i]);
            assert(self.pending@.take(i + 1) =~= self.pending@.take(i as int).push(self.pending@[i as int]));
            i = i + 1;
        }
        let mut k: usize = 0;
        while k < chunk.len()
            invariant
                k <= chunk.len(),
                buf@ == old(self).pending@ + chunk@.take(k as int),
            decreases chunk.len() - k,
        {
            buf.push(chunk[k]);
            assert(chunk@.take(k + 1) =~= chunk@.take(k as int).push(chunk@[k as int]));
            k = k + 1;
        }
        assert(self.pending@.take(self.pending.len() as int) =~= self.pending@);
        assert(chunk@.take(chunk.len() as int) =~= chunk@);
        assert(buf@ =~= all);
        let mut cur: Vec<u8> = Vec::new();
        let mut url: Option<String> = None;
        let mut opened = self.opened;
        let mut j: usize = 0;
        assert(buf@.skip(0) =~= all);
        while j < buf.len()
            invariant
                j <= buf.len(),
                buf@ == all,
                scan_lines(all, Seq::empty()).1 == scan_lines(all.skip(j as int), cur@).1,
                was_opened ==> opened && url is None,
                !was_opened ==> (match text_option(url) {
                    Some(u) => opened && first_url(scan_lines(all, Seq::empty()).0) == Some(u),
                    None => !opened && first_url(scan_lines(all, Seq::empty()).0) == first_url(
                        scan_lines(all.skip(j as int), cur@).0,
                    ),
                }),
            decreases buf.len() - j,
        {
            let b = buf[j];
            let ghost rest = all.skip(j as int);
            assert(rest[0] == b);
            assert(rest.drop_first() =~= all.skip(j + 1));
            let ghost c0 = cur@;
            cur.push(b);
            if b == 10u8 {
                let ghost line = cur@;
                if !opened {
                    let text = utf8_lossy(&cur);
                    let found = parse_dashboard_url(text.as_str());
                    if found.is_some() {
                        url = found;
                        opened = true;
                    }
                }
                cur = Vec::new();
                proof {
                    let next = scan_lines(all.skip(j + 1), Seq::empty());
                    assert(scan_lines(rest, c0).0 == seq![line] + next.0);
                    assert((seq![line] + next.0)[0] == line);
                    assert((seq![line] + next.0).drop_first() =~= next.0);
                }
            }
            j = j + 1;
        }
        assert(all.skip(buf.len() as int) =~= Seq::<u8>::empty());
        self.opened = opened;
        self.pending = cur;
        url
    }

    /// The address to open at the end of the stream, if any.
    pub fn finish(&self) -> (r: Option<String>)
        ensures
            text_option(r) == at_end(self.opened, self.pending@),
    {
        if !self.opened && self.pending.len() > 0 {
            let text = utf8_lossy(&self.pending);
            parse_dashboard_url(text.as_str())
        } else {
            None
        }
    }
}

/// The addresses a stream of chunks makes a watch open, the end included.
pub open spec fn stream_urls(opened: bool, pending: Seq<u8>, chunks: Seq<Seq<u8>>) -> Seq<Seq<char>>
    decreases chunks.len(),
{
    if chunks.len() == 0 {
        match at_end(opened, pending) {
            Some(u) => seq![u],
            None => Seq::empty(),
        }
    } else {
        let step = after_chunk(opened, pending, chunks[0]);
        (match step.2 {
            Some(u) => seq![u],
            None => Seq::empty(),
        }) + stream_urls(step.0, step.1, chunks.drop_first())
    }
}

/// A watch opens the viewer's address at most once, however the stream is
/// cut into chunks, and not at all once it has opened it.
pub proof fn lemma_dashboard_url_opened_once(opened: bool, pending: Seq<u8>, chunks: Seq<Seq<u8>>)
    ensures
        stream_urls(opened, pending, chunks).len() <= 1,
        opened ==> stream_urls(opened, pending, chunks).len() == 0,
    decreases chunks.len(),
{
    if chunks.len() > 0 {
        let step = after_chunk(opened, pending, chunks[0]);
        lemma_dashboard_url_opened_once(step.0, step.1, chunks.drop_first());
    }
}


/// The dashboard's tracker arguments begin with `--probe` and the probe
/// file when one is given, then `--config` and the config file when one is
/// given, then `--log-enable`: neither file is handed on as the other.  They
/// end with `--` and the wrapped command, word for word.
pub proof fn lemma_dashboard_args_name_probe_and_config(a: &CliArgs)
    ensures
        ({
            let args = dashboard_tracker_args(a);
            let p: int = if a.probe_file is Some { 2 } else { 0 };
            let c: int = if a.config_path is Some { 2 } else { 0 };
            &&& (a.probe_file matches Some(f) ==> args[0] == "--probe"@ && args[1] == f@)
            &&& (a.config_path matches Some(f) ==> args[p] == "--config"@ && args[p + 1] == f@)
            &&& args[p + c] == "--log-enable"@
            &&& args[p + c + 1] == "--emit"@
            &&& args[p + c + 2] == "jsonl"@
            &&& args.len() > a.command.len()
            &&& args[args.len() - a.command.len() - 1] == "--"@
            &&& args.subrange(args.len() - a.command.len(), args.len() as int) == views(a.command@)
        }),
{
    let args = dashboard_tracker_args(a);
    let p: int = if a.probe_file is Some { 2 } else { 0 };
    let c: int = if a.config_path is Some { 2 } else { 0 };
    let head = flag_if(a.probe_file, "--probe"@) + flag_if(a.config_path, "--config"@);
    let fixed = seq![
        "--log-enable"@,
        "--emit"@,
        emit_name(EmitMode::Jsonl),
        "--transport"@,
        transport_name(a.transport_mode),
        "--runtime"@,
        selection_name(a.runtime_selection),
    ];
    let tail = intelligence_args(a.intelligence@) + seq!["--"@] + views(a.command@);
    assert(args =~= head + (fixed + tail));
    assert(head.len() == p + c);
    assert(args[p + c] == fixed[0]);
    assert(args[p + c + 1] == fixed[1]);
    assert(args[p + c + 2] == fixed[2]);
    let n = a.command.len() as int;
    assert(args.subrange(args.len() - n, args.len() as int) =~= views(a.command@));
    assert(args[args.len() - n - 1] == "--"@);
    if a.probe_file is Some {
        assert(args[0] == head[0]);
        assert(args[1] == head[1]);
    }
    if a.config_path is Some {
        assert(args[p] == head[p]);
        assert(args[p + 1] == head[p + 1]);
    }
}

} // verus!
