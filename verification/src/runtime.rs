//! Which runtime image a wrapped command needs, where its compose file is
//! found, and the per-project cache directories inside the container.

use std::hash::{Hash, Hasher};

use vstd::prelude::*;
use vstd::string::StringExecFns;

use crate::text::{
    chars_of, concat, has_prefix, has_suffix, hex16_string, hex_fixed, join_lines, join_path, join_strings,
    path_join, str_eq, string_of, strip_suffix_all, strip_suffix_all_chars, views,
};

verus! {

pub const DEFAULT_COMPOSE_FILE_NAME: &'static str = "docker-compose.bpftrace.yml";

pub const NODE_COMPOSE_FILE_NAME: &'static str = "docker-compose.bpftrace.node.yml";

pub const GENERATED_RUNTIME_ROOT_PREFIX: &'static str = "runtime-v";

pub const CONTAINER_CARGO_TARGET_ROOT: &'static str = "/cargo-target";

pub const CONTAINER_NPM_CACHE_ROOT: &'static str = "/npm-cache";

/// The runtime the user asked for.
#[derive(Clone, Copy, Debug, PartialEq, Eq, Structural)]
pub enum RuntimeSelection {
    Auto,
    Rust,
    Node,
}

/// The runtime image a session runs in.
#[derive(Clone, Copy, Debug, PartialEq, Eq, Structural)]
pub enum RuntimeProfile {
    Rust,
    Node,
}

pub open spec fn selection_name(s: RuntimeSelection) -> Seq<char> {
    match s {
        RuntimeSelection::Auto => "auto"@,
        RuntimeSelection::Rust => "rust"@,
        RuntimeSelection::Node => "node"@,
    }
}

impl RuntimeSelection {
    pub fn as_str(self) -> (s: &'static str)
        ensures
            s@ == selection_name(self),
    {
        match self {
            RuntimeSelection::Auto => "auto",
            RuntimeSelection::Rust => "rust",
            RuntimeSelection::Node => "node",
        }
    }
}

/// The selection a `--runtime` value names, if any.
pub open spec fn selection_from_name(raw: Seq<char>) -> Option<RuntimeSelection> {
    if raw == "auto"@ {
        Some(RuntimeSelection::Auto)
    } else if raw == "rust"@ {
        Some(RuntimeSelection::Rust)
    } else if raw == "node"@ {
        Some(RuntimeSelection::Node)
    } else {
        None
    }
}

pub fn parse_runtime_selection(raw: &str) -> (r: Result<RuntimeSelection, String>)
    ensures
        match r {
            Ok(s) => selection_from_name(raw@) == Some(s),
            Err(e) => selection_from_name(raw@) is None && e@ == "unsupported runtime: "@ + raw@,
        },
{
    if str_eq(raw, "auto") {
        Ok(RuntimeSelection::Auto)
    } else if str_eq(raw, "rust") {
        Ok(RuntimeSelection::Rust)
    } else if str_eq(raw, "node") {
        Ok(RuntimeSelection::Node)
    } else {
        Err(concat("unsupported runtime: ", raw))
    }
}

/// Every selection's name reads back as that selection.
pub proof fn lemma_selection_name_round_trip(s: RuntimeSelection)
    ensures
        selection_from_name(selection_name(s)) == Some(s),
{
    reveal_strlit("auto");
    reveal_strlit("rust");
    reveal_strlit("node");
    assert("rust"@ != "auto"@) by {
        assert("rust"@[0] != "auto"@[0]);
    }
    assert("node"@ != "auto"@) by {
        assert("node"@[0] != "auto"@[0]);
    }
    assert("node"@ != "rust"@) by {
        assert("node"@[0] != "rust"@[0]);
    }
}

/// Where the last component of a Unix path starts: just after its last `/`.
pub open spec fn name_start(s: Seq<char>) -> nat
    decreases s.len(),
{
    if s.len() == 0 {
        0
    } else if s.last() == '/' {
        s.len()
    } else {
        name_start(s.drop_last())
    }
}

/// The last component starts within the path, after a `/`.
pub proof fn lemma_name_start(s: Seq<char>)
    ensures
        name_start(s) <= s.len(),
        s.len() > 0 && s.last() != '/' ==> name_start(s) < s.len(),
        name_start(s) > 0 ==> s[name_start(s) - 1] == '/',
    decreases s.len(),
{
    if s.len() > 0 && s.last() != '/' {
        lemma_name_start(s.drop_last());
    }
}

/// The last component of a Unix path when it is a name (`Path::file_name`):
/// trailing `/` are ignored, a `.` component is passed over unless it
/// begins the path, and there is none when the path is empty, is the root,
/// or ends in `.` or `..`.
pub open spec fn unix_file_name(s: Seq<char>) -> Option<Seq<char>>
    decreases s.len(),
{
    if s.len() == 0 {
        None
    } else if s.last() == '/' {
        unix_file_name(s.drop_last())
    } else {
        proof {
            lemma_name_start(s);
        }
        let k = name_start(s);
        let name = s.subrange(k as int, s.len() as int);
        if name == seq!['.'] {
            if k == 0 {
                None
            } else {
                unix_file_name(s.subrange(0, k as int))
            }
        } else if name == seq!['.', '.'] {
            None
        } else {
            Some(name)
        }
    }
}

/// The non-empty `/`-separated parts of a Unix path, in order.
pub open spec fn slash_parts(s: Seq<char>) -> Seq<Seq<char>>
    decreases s.len(),
{
    if s.len() == 0 {
        Seq::empty()
    } else if s.last() == '/' {
        slash_parts(s.drop_last())
    } else {
        proof {
            lemma_name_start(s);
        }
        let k = name_start(s);
        slash_parts(s.subrange(0, k as int)).push(s.subrange(k as int, s.len() as int))
    }
}

/// The components of a Unix path as `Path::components` yields them: whether
/// it starts at the root, then its parts, with every `.` left out except
/// one that begins a relative path.
pub open spec fn path_components(s: Seq<char>) -> (bool, Seq<Seq<char>>) {
    let parts = slash_parts(s);
    let rooted = s.len() > 0 && s[0] == '/';
    let names = parts.filter(|p: Seq<char>| p != seq!['.']);
    (
        rooted,
        if !rooted && parts.len() > 0 && parts[0] == seq!['.'] {
            seq![seq!['.']] + names
        } else {
            names
        },
    )
}

/// `Path::new(raw).file_name()` as text, on Unix: the last component that
/// `Path::components` yields when it is a name.  The argument is text
/// already, so the name converts back without loss.
#[verifier::external_body]
fn path_file_name(raw: &str) -> (r: Option<String>)
    ensures
        option_text(r) == unix_file_name(raw@),
{
    std::path::Path::new(raw).file_name().and_then(|name| name.to_str()).map(|name| name.to_string())
}

pub open spec fn option_text(o: Option<String>) -> Option<Seq<char>> {
    match o {
        Some(s) => Some(s@),
        None => None,
    }
}

/// `c` in lower case when it is an ASCII capital.
pub open spec fn lower_ascii(c: char) -> char {
    if 'A' <= c && c <= 'Z' {
        ((c as u32) + 32) as char
    } else {
        c
    }
}

/// The program name of a command: its file name (or the whole text when it
/// has none), without trailing `.cmd` and then `.exe`, in ASCII lower case.
pub open spec fn command_name(raw: Seq<char>) -> Seq<char> {
    let name = match unix_file_name(raw) {
        Some(n) => n,
        None => raw,
    };
    strip_suffix_all(strip_suffix_all(name, ".cmd"@), ".exe"@).map_values(|c: char| lower_ascii(c))
}

pub fn normalized_command_name(raw_command: &str) -> (r: String)
    ensures
        r@ == command_name(raw_command@),
{
    let name = match path_file_name(raw_command) {
        Some(n) => n,
        None => String::from_str(raw_command),
    };
    let v = chars_of(name.as_str());
    proof {
        reveal_strlit(".cmd");
        reveal_strlit(".exe");
    }
    let a = strip_suffix_all_chars(&v, &chars_of(".cmd"));
    let b = strip_suffix_all_chars(&a, &chars_of(".exe"));
    let mut out: Vec<char> = Vec::new();
    let mut i: usize = 0;
    while i < b.len()
        invariant
            i <= b.len(),
            out@ == b@.take(i as int).map_values(|c: char| lower_ascii(c)),
        decreases b.len() - i,
    {
        let c = b[i];
        let l = if 'A' <= c && c <= 'Z' {
            ((c as u32) + 32) as u8 as char
        } else {
            c
        };
        proof {
            if 'A' <= c && c <= 'Z' {
                assert((((c as u32) + 32) as u8 as char) == ((c as u32) + 32) as char);
            }
        }
        out.push(l);
        assert(b@.take(i + 1).map_values(|c: char| lower_ascii(c)) =~= b@.take(i as int).map_values(
            |c: char| lower_ascii(c),
        ).push(lower_ascii(c)));
        i = i + 1;
    }
    assert(b@.take(b.len() as int) =~= b@);
    string_of(&out)
}

/// The program names that run on the Node image.
pub open spec fn is_node_command(name: Seq<char>) -> bool {
    name == "node"@ || name == "nodejs"@ || name == "npm"@ || name == "npx"@ || name == "pnpm"@
        || name == "yarn"@ || name == "yarnpkg"@ || name == "corepack"@
}

/// The profile a command needs: Node for the Node tool chain, Rust for
/// anything else and for an empty command.
pub open spec fn inferred_profile(command: Seq<Seq<char>>) -> RuntimeProfile {
    if command.len() > 0 && is_node_command(command_name(command[0])) {
        RuntimeProfile::Node
    } else {
        RuntimeProfile::Rust
    }
}

pub fn infer_runtime_profile(wrapped_command: &Vec<String>) -> (p: RuntimeProfile)
    ensures
        p == inferred_profile(views(wrapped_command@)),
{
    if wrapped_command.len() == 0 {
        return RuntimeProfile::Rust;
    }
    let name = normalized_command_name(wrapped_command[0].as_str());
    let n = name.as_str();
    if str_eq(n, "node") || str_eq(n, "nodejs") || str_eq(n, "npm") || str_eq(n, "npx") || str_eq(
        n,
        "pnpm",
    ) || str_eq(n, "yarn") || str_eq(n, "yarnpkg") || str_eq(n, "corepack") {
        RuntimeProfile::Node
    } else {
        RuntimeProfile::Rust
    }
}

/// An explicit selection wins; `auto` infers the profile from the command.
pub open spec fn resolved_profile(selection: RuntimeSelection, command: Seq<Seq<char>>) -> RuntimeProfile {
    match selection {
        RuntimeSelection::Auto => inferred_profile(command),
        RuntimeSelection::Rust => RuntimeProfile::Rust,
        RuntimeSelection::Node => RuntimeProfile::Node,
    }
}

pub fn resolve_runtime_profile(selection: RuntimeSelection, wrapped_command: &Vec<String>) -> (p:
    RuntimeProfile)
    ensures
        p == resolved_profile(selection, views(wrapped_command@)),
{
    match selection {
        RuntimeSelection::Auto => infer_runtime_profile(wrapped_command),
        RuntimeSelection::Rust => RuntimeProfile::Rust,
        RuntimeSelection::Node => RuntimeProfile::Node,
    }
}

/// The compose file of each profile.
pub open spec fn compose_name(p: RuntimeProfile) -> Seq<char> {
    match p {
        RuntimeProfile::Rust => DEFAULT_COMPOSE_FILE_NAME@,
        RuntimeProfile::Node => NODE_COMPOSE_FILE_NAME@,
    }
}

pub fn compose_file_name(profile: RuntimeProfile) -> (s: &'static str)
    ensures
        s@ == compose_name(profile),
{
    match profile {
        RuntimeProfile::Rust => DEFAULT_COMPOSE_FILE_NAME,
        RuntimeProfile::Node => NODE_COMPOSE_FILE_NAME,
    }
}

/// The file names searched for a profile's compose file, in order.
pub open spec fn compose_candidates(p: RuntimeProfile) -> Seq<Seq<char>> {
    seq![compose_name(p)]
}

pub fn compose_file_candidates(profile: RuntimeProfile) -> (v: Vec<String>)
    ensures
        views(v@) == compose_candidates(profile),
{
    let mut v: Vec<String> = Vec::new();
    v.push(String::from_str(compose_file_name(profile)));
    assert(views(v@) =~= compose_candidates(profile));
    v
}

/// The DefaultHasher hash of a project directory's path text.
pub uninterp spec fn dir_hash(path: Seq<char>) -> u64;

/// Hashes the path text with a `DefaultHasher::new()`, whose keys are fixed,
/// so the same text gives the same hash within one build of the tool.
#[verifier::external_body]
fn project_dir_hash(project_dir: &str) -> (h: u64)
    ensures
        h == dir_hash(project_dir@),
{
    let mut hasher = std::collections::hash_map::DefaultHasher::new();
    project_dir.hash(&mut hasher);
    hasher.finish()
}

/// A per-project directory under a container root: the root, `/`, and the
/// project's hash as sixteen hexadecimal digits.
pub open spec fn hashed_dir(root: Seq<char>, project_dir: Seq<char>) -> Seq<char> {
    root + "/"@ + hex_fixed(dir_hash(project_dir) as nat, 16)
}

fn hashed_container_dir(root: &str, project_dir: &str) -> (r: String)
    ensures
        r@ == hashed_dir(root@, project_dir@),
{
    let mut r = String::from_str(root);
    r.append("/");
    r.append(hex16_string(project_dir_hash(project_dir)).as_str());
    r
}

/// The cargo target directory of a project inside the container; the same
/// project always gets the same directory.
pub fn container_cargo_target_dir(project_dir: &str) -> (r: String)
    ensures
        r@ == hashed_dir(CONTAINER_CARGO_TARGET_ROOT@, project_dir@),
{
    hashed_container_dir(CONTAINER_CARGO_TARGET_ROOT, project_dir)
}

/// The npm cache directory of a project inside the container.
pub fn container_npm_cache_dir(project_dir: &str) -> (r: String)
    ensures
        r@ == hashed_dir(CONTAINER_NPM_CACHE_ROOT@, project_dir@),
{
    hashed_container_dir(CONTAINER_NPM_CACHE_ROOT, project_dir)
}

/// The environment assignment that gives a profile its per-project cache.
pub open spec fn runtime_env(project_dir: Seq<char>, p: RuntimeProfile) -> Seq<char> {
    match p {
        RuntimeProfile::Rust => "CARGO_TARGET_DIR="@ + hashed_dir(
            CONTAINER_CARGO_TARGET_ROOT@,
            project_dir,
        ),
        RuntimeProfile::Node => "NPM_CONFIG_CACHE="@ + hashed_dir(
            CONTAINER_NPM_CACHE_ROOT@,
            project_dir,
        ),
    }
}

/// The `-e` value that the compose run gets for the profile.
pub fn runtime_env_assignment(project_dir: &str, profile: RuntimeProfile) -> (r: String)
    ensures
        r@ == runtime_env(project_dir@, profile),
{
    match profile {
        RuntimeProfile::Rust => concat(
            "CARGO_TARGET_DIR=",
            container_cargo_target_dir(project_dir).as_str(),
        ),
        RuntimeProfile::Node => concat(
            "NPM_CONFIG_CACHE=",
            container_npm_cache_dir(project_dir).as_str(),
        ),
    }
}


/// The path and each of its ancestors, nearest first (`Path::ancestors`).
pub uninterp spec fn ancestors_of(path: Seq<char>) -> Seq<Seq<char>>;

/// A list of paths that starts with `path` and in which each later one is
/// a shorter prefix of the one before: ancestors, nearest first.
pub open spec fn nearest_first(dirs: Seq<Seq<char>>, path: Seq<char>) -> bool {
    &&& dirs.len() >= 1
    &&& dirs[0] == path
    &&& forall|i: int|
        1 <= i < dirs.len() ==> (#[trigger] dirs[i]).len() < dirs[i - 1].len() && has_prefix(
            dirs[i - 1],
            dirs[i],
        )
}

/// `Path::new(path).ancestors()`, each as text: the path itself first, then
/// each `parent()` in turn, every one a shorter slice from the start of the
/// one before.  Which slices they are is left to the name.
#[verifier::external_body]
fn path_ancestors(path: &str) -> (r: Vec<String>)
    ensures
        views(r@) == ancestors_of(path@),
        nearest_first(views(r@), path@),
{
    std::path::Path::new(path).ancestors().map(|a| a.to_string_lossy().into_owned()).collect()
}

/// The places where a profile's compose file is looked for in `dir`.
pub open spec fn candidates_in(dir: Seq<char>, p: RuntimeProfile) -> Seq<Seq<char>> {
    compose_candidates(p).map_values(|name: Seq<char>| path_join(dir, name))
}

/// The places looked at in each of several directories, in order.
pub open spec fn candidates_in_all(dirs: Seq<Seq<char>>, p: RuntimeProfile) -> Seq<Seq<char>>
    decreases dirs.len(),
{
    if dirs.len() == 0 {
        Seq::empty()
    } else {
        candidates_in_all(dirs.drop_last(), p) + candidates_in(dirs.last(), p)
    }
}

pub fn compose_paths_in_dir(profile: RuntimeProfile, dir: &str) -> (v: Vec<String>)
    ensures
        views(v@) == candidates_in(dir@, profile),
{
    let names = compose_file_candidates(profile);
    let mut v: Vec<String> = Vec::new();
    let mut i: usize = 0;
    while i < names.len()
        invariant
            i <= names.len(),
            views(names@) == compose_candidates(profile),
            views(v@) == views(names@).take(i as int).map_values(|name: Seq<char>| path_join(dir@, name)),
        decreases names.len() - i,
    {
        let p = join_path(dir, names[i].as_str());
        let ghost before = views(v@);
        v.push(p);
        assert(views(v@) =~= before.push(p@));
        assert(views(names@).take(i + 1).map_values(|name: Seq<char>| path_join(dir@, name))
            =~= views(names@).take(i as int).map_values(|name: Seq<char>| path_join(dir@, name)).push(
            path_join(dir@, views(names@)[i as int]),
        ));
        i = i + 1;
    }
    assert(views(names@).take(names.len() as int) =~= views(names@));
    v
}

/// The places where a profile's compose file is looked for around the
/// executable: in the executable's path and each of its ancestors.
pub fn compose_paths_in_ancestors(profile: RuntimeProfile, path: &str) -> (v: Vec<String>)
    ensures
        views(v@) == candidates_in_all(ancestors_of(path@), profile),
        nearest_first(ancestors_of(path@), path@),
{
    let dirs = path_ancestors(path);
    let mut v: Vec<String> = Vec::new();
    let mut i: usize = 0;
    while i < dirs.len()
        invariant
            i <= dirs.len(),
            views(dirs@) == ancestors_of(path@),
            views(v@) == candidates_in_all(views(dirs@).take(i as int), profile),
        decreases dirs.len() - i,
    {
        let here = compose_paths_in_dir(profile, dirs[i].as_str());
        let ghost before = views(v@);
        let mut k: usize = 0;
        while k < here.len()
            invariant
                k <= here.len(),
                views(v@) == before + views(here@).take(k as int),
            decreases here.len() - k,
        {
            let ghost prev = views(v@);
            v.push(here[k].clone());
            assert(views(v@) =~= prev.push(here@[k as int]@));
            assert(views(here@).take(k + 1) =~= views(here@).take(k as int).push(here@[k as int]@));
            assert(views(v@) =~= before + views(here@).take(k + 1));
            k = k + 1;
        }
        assert(views(here@).take(here.len() as int) =~= views(here@));
        assert(views(dirs@).take(i + 1).drop_last() =~= views(dirs@).take(i as int));
        i = i + 1;
    }
    assert(views(dirs@).take(dirs.len() as int) =~= views(dirs@));
    v
}

/// A place looked at, and whether a file is there.
#[derive(Clone, Debug)]
pub struct ProbedPath {
    pub path: String,
    pub is_file: bool,
}

/// The first probed place that holds a file.
pub open spec fn first_file(ps: Seq<ProbedPath>) -> Option<Seq<char>>
    decreases ps.len(),
{
    if ps.len() == 0 {
        None
    } else if ps[0].is_file {
        Some(ps[0].path@)
    } else {
        first_file(ps.drop_first())
    }
}

/// Where a compose file was found.
#[derive(Clone, Debug)]
pub enum RuntimeAssetSource {
    EnvironmentOverride(String),
    CurrentDir(String),
    ExecutableAncestor(String),
    EmbeddedRuntime { cache_root: String },
}

/// The compose file to run with, and where it came from.
#[derive(Clone, Debug)]
pub struct RuntimeAssetResolution {
    pub compose_file: String,
    pub source: RuntimeAssetSource,
}

/// A sentence naming where the compose file came from.
pub open spec fn description_of(r: RuntimeAssetResolution) -> Seq<char> {
    match r.source {
        RuntimeAssetSource::EnvironmentOverride(p) => "compose file from EBPF_TRACKER_COMPOSE_FILE: "@
            + p@,
        RuntimeAssetSource::CurrentDir(p) => "compose file from current dir: "@ + p@,
        RuntimeAssetSource::ExecutableAncestor(p) => "compose file from executable ancestor: "@ + p@,
        RuntimeAssetSource::EmbeddedRuntime { cache_root } =>
            "compose file materialized into embedded runtime cache root: "@ + cache_root@,
    }
}

impl RuntimeAssetResolution {
    pub fn description(&self) -> (s: String)
        ensures
            s@ == description_of(*self),
    {
        match &self.source {
            RuntimeAssetSource::EnvironmentOverride(p) => concat(
                "compose file from EBPF_TRACKER_COMPOSE_FILE: ",
                p.as_str(),
            ),
            RuntimeAssetSource::CurrentDir(p) => concat("compose file from current dir: ", p.as_str()),
            RuntimeAssetSource::ExecutableAncestor(p) => concat(
                "compose file from executable ancestor: ",
                p.as_str(),
            ),
            RuntimeAssetSource::EmbeddedRuntime { cache_root } => concat(
                "compose file materialized into embedded runtime cache root: ",
                cache_root.as_str(),
            ),
        }
    }
}

/// A source as text.
pub enum SourceView {
    EnvironmentOverride(Seq<char>),
    CurrentDir(Seq<char>),
    ExecutableAncestor(Seq<char>),
    EmbeddedRuntime(Seq<char>),
}

pub open spec fn source_view(s: RuntimeAssetSource) -> SourceView {
    match s {
        RuntimeAssetSource::EnvironmentOverride(p) => SourceView::EnvironmentOverride(p@),
        RuntimeAssetSource::CurrentDir(p) => SourceView::CurrentDir(p@),
        RuntimeAssetSource::ExecutableAncestor(p) => SourceView::ExecutableAncestor(p@),
        RuntimeAssetSource::EmbeddedRuntime { cache_root } => SourceView::EmbeddedRuntime(
            cache_root@,
        ),
    }
}

/// A resolution as text: the compose file and its source.
pub open spec fn resolution_view(r: RuntimeAssetResolution) -> (Seq<char>, SourceView) {
    (r.compose_file@, source_view(r.source))
}

/// A decision as text.
pub enum DecisionView {
    Resolved(Seq<char>, SourceView),
    Failed(Seq<char>),
    MaterializeEmbedded,
}

/// What the search for a compose file concluded.
#[derive(Debug)]
pub enum ComposeDecision {
    Resolved(RuntimeAssetResolution),
    Failed(String),
    /// Nothing was found: the embedded runtime is to be written out.
    MaterializeEmbedded,
}

pub open spec fn decision_view(d: ComposeDecision) -> DecisionView {
    match d {
        ComposeDecision::Resolved(r) => DecisionView::Resolved(r.compose_file@, source_view(r.source)),
        ComposeDecision::Failed(e) => DecisionView::Failed(e@),
        ComposeDecision::MaterializeEmbedded => DecisionView::MaterializeEmbedded,
    }
}

/// The search for a compose file, given what was found at each place: the
/// environment's file when one is named (and an error when it is missing),
/// else the first found in the current directory, else the first found
/// around the executable, else the embedded runtime.
pub open spec fn compose_decision(
    env_compose_file: Option<ProbedPath>,
    current_dir: Seq<ProbedPath>,
    executable_ancestors: Seq<ProbedPath>,
) -> DecisionView {
    match env_compose_file {
        Some(p) => if p.is_file {
            DecisionView::Resolved(p.path@, SourceView::EnvironmentOverride(p.path@))
        } else {
            DecisionView::Failed("compose file from EBPF_TRACKER_COMPOSE_FILE not found: "@ + p.path@)
        },
        None => match first_file(current_dir) {
            Some(f) => DecisionView::Resolved(f, SourceView::CurrentDir(f)),
            None => match first_file(executable_ancestors) {
                Some(f) => DecisionView::Resolved(f, SourceView::ExecutableAncestor(f)),
                None => DecisionView::MaterializeEmbedded,
            },
        },
    }
}

fn first_probed(ps: &Vec<ProbedPath>) -> (r: Option<String>)
    ensures
        option_text(r) == first_file(ps@),
{
    let mut i: usize = 0;
    assert(ps@.subrange(0, ps.len() as int) =~= ps@);
    while i < ps.len()
        invariant
            i <= ps.len(),
            first_file(ps@) == first_file(ps@.subrange(i as int, ps.len() as int)),
        decreases ps.len() - i,
    {
        let ghost rest = ps@.subrange(i as int, ps.len() as int);
        assert(rest[0] == ps@[i as int]);
        if ps[i].is_file {
            return Some(ps[i].path.clone());
        }
        assert(rest.drop_first() =~= ps@.subrange(i + 1, ps.len() as int));
        i = i + 1;
    }
    None
}

/// Decides where the compose file comes from.
pub fn resolve_compose_file_from_context(
    env_compose_file: Option<ProbedPath>,
    current_dir: &Vec<ProbedPath>,
    executable_ancestors: &Vec<ProbedPath>,
) -> (d: ComposeDecision)
    ensures
        decision_view(d) == compose_decision(env_compose_file, current_dir@, executable_ancestors@),
{
    if let Some(p) = env_compose_file {
        if p.is_file {
            let compose = p.path.clone();
            return ComposeDecision::Resolved(
                RuntimeAssetResolution {
                    compose_file: compose,
                    source: RuntimeAssetSource::EnvironmentOverride(p.path),
                },
            );
        }
        return ComposeDecision::Failed(
            concat("compose file from EBPF_TRACKER_COMPOSE_FILE not found: ", p.path.as_str()),
        );
    }
    if let Some(found) = first_probed(current_dir) {
        return ComposeDecision::Resolved(
            RuntimeAssetResolution {
                compose_file: found.clone(),
                source: RuntimeAssetSource::CurrentDir(found),
            },
        );
    }
    if let Some(found) = first_probed(executable_ancestors) {
        return ComposeDecision::Resolved(
            RuntimeAssetResolution {
                compose_file: found.clone(),
                source: RuntimeAssetSource::ExecutableAncestor(found),
            },
        );
    }
    ComposeDecision::MaterializeEmbedded
}

/// The directory the embedded runtime of a version is written to.
pub open spec fn embedded_dir_of(root: Seq<char>, version: Seq<char>) -> Seq<char> {
    path_join(root, GENERATED_RUNTIME_ROOT_PREFIX@ + version)
}

pub fn embedded_runtime_dir(root: &str, version: &str) -> (r: String)
    ensures
        r@ == embedded_dir_of(root@, version@),
{
    let name = concat(GENERATED_RUNTIME_ROOT_PREFIX, version);
    join_path(root, name.as_str())
}

/// The first attempt that succeeded, if any.
pub open spec fn first_ok(outcomes: Seq<Result<(), String>>) -> Option<int>
    decreases outcomes.len(),
{
    if outcomes.len() == 0 {
        None
    } else if outcomes[0] is Ok {
        Some(0)
    } else {
        match first_ok(outcomes.drop_first()) {
            Some(k) => Some(k + 1),
            None => None,
        }
    }
}

/// The messages of the failed attempts, in order.
pub open spec fn failure_texts(outcomes: Seq<Result<(), String>>) -> Seq<Seq<char>>
    decreases outcomes.len(),
{
    if outcomes.len() == 0 {
        Seq::empty()
    } else {
        failure_texts(outcomes.drop_last()) + match outcomes.last() {
            Ok(()) => Seq::<Seq<char>>::empty(),
            Err(e) => seq![e@],
        }
    }
}

/// The cache root to try writing the embedded runtime into next: the one
/// after the last attempt, until an attempt succeeds or every root has
/// been tried.
pub fn next_cache_root(cache_roots: &Vec<String>, outcomes: &Vec<Result<(), String>>) -> (r: Option<
    usize,
>)
    ensures
        r == if first_ok(outcomes@) is Some || outcomes.len() >= cache_roots.len() {
            None::<usize>
        } else {
            Some(outcomes.len())
        },
{
    let mut i: usize = 0;
    assert(outcomes@.subrange(0, outcomes.len() as int) =~= outcomes@);
    while i < outcomes.len()
        invariant
            i <= outcomes.len(),
            (first_ok(outcomes@) is Some) == (first_ok(
                outcomes@.subrange(i as int, outcomes.len() as int),
            ) is Some),
        decreases outcomes.len() - i,
    {
        let ghost rest = outcomes@.subrange(i as int, outcomes.len() as int);
        assert(rest[0] == outcomes@[i as int]);
        if outcomes[i].is_ok() {
            return None;
        }
        assert(rest.drop_first() =~= outcomes@.subrange(i + 1, outcomes.len() as int));
        i = i + 1;
    }
    if outcomes.len() >= cache_roots.len() {
        None
    } else {
        Some(outcomes.len())
    }
}

/// Where the embedded runtime went: the first cache root whose assets were
/// written (the attempts are made in the order of the roots, and stop at
/// the first success), or every failure joined by `; `.
pub fn ensure_embedded_runtime(
    profile: RuntimeProfile,
    cache_roots: &Vec<String>,
    version: &str,
    outcomes: &Vec<Result<(), String>>,
) -> (r: Result<RuntimeAssetResolution, String>)
    requires
        outcomes.len() <= cache_roots.len(),
    ensures
        match first_ok(outcomes@) {
            Some(k) => r is Ok && resolution_view(r->Ok_0) == (
                path_join(embedded_dir_of(cache_roots@[k]@, version@), compose_name(profile)),
                SourceView::EmbeddedRuntime(cache_roots@[k]@),
            ),
            None => r is Err && r->Err_0@ == "failed to materialize runtime assets: "@ + join_lines(
                failure_texts(outcomes@),
                "; "@,
            ),
        },
{
    let mut errors: Vec<String> = Vec::new();
    let mut i: usize = 0;
    assert(outcomes@.subrange(0, outcomes.len() as int) =~= outcomes@);
    assert(outcomes@.take(0) =~= Seq::<Result<(), String>>::empty());
    while i < outcomes.len()
        invariant
            i <= outcomes.len() <= cache_roots.len(),
            first_ok(outcomes@) == (match first_ok(outcomes@.subrange(i as int, outcomes.len() as int)) {
                Some(k) => Some(k + i),
                None => None,
            }),
            views(errors@) == failure_texts(outcomes@.take(i as int)),
        decreases outcomes.len() - i,
    {
        let ghost rest = outcomes@.subrange(i as int, outcomes.len() as int);
        assert(rest[0] == outcomes@[i as int]);
        assert(outcomes@.take(i + 1).drop_last() =~= outcomes@.take(i as int));
        match &outcomes[i] {
            Ok(()) => {
                let dir = embedded_runtime_dir(cache_roots[i].as_str(), version);
                return Ok(
                    RuntimeAssetResolution {
                        compose_file: join_path(dir.as_str(), compose_file_name(profile)),
                        source: RuntimeAssetSource::EmbeddedRuntime {
                            cache_root: cache_roots[i].clone(),
                        },
                    },
                );
            },
            Err(e) => {
                let ghost before = views(errors@);
                errors.push(e.clone());
                assert(views(errors@) =~= before.push(e@));
                assert(failure_texts(outcomes@.take(i + 1)) =~= before + seq![e@]);
            },
        }
        assert(rest.drop_first() =~= outcomes@.subrange(i + 1, outcomes.len() as int));
        i = i + 1;
    }
    assert(outcomes@.take(outcomes.len() as int) =~= outcomes@);
    let mut message = String::from_str("failed to materialize runtime assets: ");
    message.append(join_strings(&errors, "; ").as_str());
    Err(message)
}

/// The cache roots tried for the embedded runtime: only the one named by
/// `EBPF_TRACKER_CACHE_DIR` when set; otherwise under `XDG_CACHE_HOME` and
/// `HOME/.cache` when those are set, then under the temporary directory.
pub open spec fn cache_roots(
    cache_dir: Option<Seq<char>>,
    xdg_cache_home: Option<Seq<char>>,
    home: Option<Seq<char>>,
    temp_dir: Seq<char>,
) -> Seq<Seq<char>> {
    match cache_dir {
        Some(d) => seq![d],
        None => (match xdg_cache_home {
            Some(x) => seq![path_join(x, "ebpf-tracker"@)],
            None => Seq::empty(),
        }) + (match home {
            Some(h) => seq![path_join(path_join(h, ".cache"@), "ebpf-tracker"@)],
            None => Seq::empty(),
        }) + seq![path_join(temp_dir, "ebpf-tracker"@)],
    }
}

pub fn cache_root_candidates(
    cache_dir: Option<&str>,
    xdg_cache_home: Option<&str>,
    home: Option<&str>,
    temp_dir: &str,
) -> (v: Vec<String>)
    ensures
        views(v@) == cache_roots(
            match cache_dir {
                Some(d) => Some(d@),
                None => None,
            },
            match xdg_cache_home {
                Some(x) => Some(x@),
                None => None,
            },
            match home {
                Some(h) => Some(h@),
                None => None,
            },
            temp_dir@,
        ),
{
    let mut roots: Vec<String> = Vec::new();
    if let Some(d) = cache_dir {
        roots.push(String::from_str(d));
        assert(views(roots@) =~= seq![d@]);
        return roots;
    }
    let ghost a: Seq<Seq<char>> = match xdg_cache_home {
        Some(x) => seq![path_join(x@, "ebpf-tracker"@)],
        None => Seq::empty(),
    };
    if let Some(x) = xdg_cache_home {
        roots.push(join_path(x, "ebpf-tracker"));
    }
    assert(views(roots@) =~= a);
    let ghost b: Seq<Seq<char>> = match home {
        Some(h) => seq![path_join(path_join(h@, ".cache"@), "ebpf-tracker"@)],
        None => Seq::empty(),
    };
    if let Some(h) = home {
        let cache = join_path(h, ".cache");
        roots.push(join_path(cache.as_str(), "ebpf-tracker"));
    }
    assert(views(roots@) =~= a + b);
    roots.push(join_path(temp_dir, "ebpf-tracker"));
    assert(views(roots@) =~= a + b + seq![path_join(temp_dir@, "ebpf-tracker"@)]);
    roots
}


/// Under `auto`, the profile depends on the program name (the first word)
/// alone, whatever words follow it; the Node tool chain's names select the
/// Node image and every other name, or an empty command, the Rust image.
pub proof fn lemma_auto_profile_follows_the_program(command: Seq<Seq<char>>)
    ensures
        command.len() > 0 ==> resolved_profile(RuntimeSelection::Auto, command) == resolved_profile(
            RuntimeSelection::Auto,
            seq![command[0]],
        ),
        command.len() > 0 ==> (resolved_profile(RuntimeSelection::Auto, command)
            == RuntimeProfile::Node <==> {
            let n = command_name(command[0]);
            ||| n == "node"@
            ||| n == "nodejs"@
            ||| n == "npm"@
            ||| n == "npx"@
            ||| n == "pnpm"@
            ||| n == "yarn"@
            ||| n == "yarnpkg"@
            ||| n == "corepack"@
        }),
        command.len() == 0 ==> resolved_profile(RuntimeSelection::Auto, command)
            == RuntimeProfile::Rust,
{
    if command.len() > 0 {
        assert(seq![command[0]][0] == command[0]);
    }
}

/// An explicit selection wins over what the command looks like.
pub proof fn lemma_explicit_selection_wins(command: Seq<Seq<char>>)
    ensures
        resolved_profile(RuntimeSelection::Rust, command) == RuntimeProfile::Rust,
        resolved_profile(RuntimeSelection::Node, command) == RuntimeProfile::Node,
{
}

/// Without an override, the roots are the XDG cache when it is set, the
/// home cache when `HOME` is set (whether or not the XDG cache is), and
/// always the temporary directory last; an override is the only root.
pub proof fn lemma_cache_roots_follow_the_environment(
    cache_dir: Option<Seq<char>>,
    xdg_cache_home: Option<Seq<char>>,
    home: Option<Seq<char>>,
    temp_dir: Seq<char>,
)
    ensures
        ({
            let roots = cache_roots(cache_dir, xdg_cache_home, home, temp_dir);
            let temp_root = path_join(temp_dir, "ebpf-tracker"@);
            match cache_dir {
                Some(d) => roots == seq![d],
                None => {
                    let x: int = if xdg_cache_home is Some { 1 } else { 0 };
                    let h: int = if home is Some { 1 } else { 0 };
                    &&& roots.len() == x + h + 1
                    &&& roots.last() == temp_root
                    &&& (xdg_cache_home matches Some(xd) ==> roots[0] == path_join(xd, "ebpf-tracker"@))
                    &&& (home matches Some(hd) ==> roots[x] == path_join(
                        path_join(hd, ".cache"@),
                        "ebpf-tracker"@,
                    ))
                },
            }
        }),
{
}

} // verus!
