use vstd::prelude::*;
use vstd::string::*;
use crate::context::{WorkspaceContext, first_val};
use crate::command::{
    CommandModel, ResolvedCommand, composed_env, compose_env, clone_pairs, spec_derive_args,
    derive_args, script_of, build_script,
};
use crate::strutil::{concat2, join_with, join_strings, split_colon, split_colon_exec};

verus! {

/// The vendor home directory: the dedicated shell variable where one is set,
/// else the default subdirectory under HOME where that exists on disk.
pub open spec fn spec_vendor_home(ctx: WorkspaceContext) -> Option<Seq<char>> {
    match ctx.env_val("MODULAR_HOME"@) {
        Some(v) => Some(v),
        None => match ctx.home.deep_view() {
            Some(h) => if ctx.path_exists(h + "/.modular"@) {
                Some(h + "/.modular"@)
            } else {
                None
            },
            None => None,
        },
    }
}

/// The environment handed to every returned command.
pub open spec fn spec_base_env(ctx: WorkspaceContext) -> Seq<(Seq<char>, Seq<char>)> {
    composed_env(ctx.env(), spec_vendor_home(ctx))
}

/// A command invoked directly by its path, with derived arguments.
pub open spec fn direct_command(ctx: WorkspaceContext, path: Seq<char>) -> CommandModel {
    CommandModel { command: path, args: spec_derive_args(path), env: spec_base_env(ctx) }
}

/// A command that runs the path through a POSIX shell, so that a relative
/// path resolves against the project root.
pub open spec fn wrapped_command(ctx: WorkspaceContext, path: Seq<char>) -> CommandModel {
    CommandModel {
        command: "/bin/sh"@,
        args: seq!["-c"@, script_of(path, spec_derive_args(path))],
        env: spec_base_env(ctx),
    }
}

/// Whether a cached or resolved path is absolute.
pub open spec fn is_absolute(p: Seq<char>) -> bool {
    p.len() > 0 && p[0] == '/'
}

/// Whether the path is absolute.
pub fn is_absolute_path(p: &str) -> (r: bool)
    ensures
        r == is_absolute(p@),
{
    let n = p.unicode_len();
    if n > 0 {
        p.get_char(0) == '/'
    } else {
        false
    }
}

/// The first of the candidate paths that exists on disk.
pub open spec fn first_existing(ctx: WorkspaceContext, paths: Seq<Seq<char>>) -> Option<Seq<char>>
    decreases paths.len(),
{
    if paths.len() == 0 {
        None
    } else if ctx.path_exists(paths[0]) {
        Some(paths[0])
    } else {
        first_existing(ctx, paths.drop_first())
    }
}

/// Finds the first candidate path that exists on disk.
pub fn find_first_existing(ctx: &WorkspaceContext, cands: &Vec<String>) -> (r: Option<String>)
    ensures
        r.deep_view() == first_existing(*ctx, cands.deep_view()),
{
    let ghost dv = cands.deep_view();
    let mut i: usize = 0;
    proof {
        assert(dv.subrange(0, dv.len() as int) =~= dv);
    }
    while i < cands.len()
        invariant
            0 <= i <= cands.len(),
            dv == cands.deep_view(),
            dv.len() == cands.len(),
            first_existing(*ctx, dv) == first_existing(
                *ctx,
                dv.subrange(i as int, dv.len() as int),
            ),
        decreases cands.len() - i,
    {
        proof {
            let sub = dv.subrange(i as int, dv.len() as int);
            assert(sub[0] == dv[i as int]);
            assert(sub.drop_first() =~= dv.subrange(i + 1 as int, dv.len() as int));
        }
        if ctx.on_disk(cands[i].as_str()) {
            return Some(cands[i].clone());
        }
        i = i + 1;
    }
    proof {
        assert(dv.subrange(dv.len() as int, dv.len() as int) =~= Seq::<Seq<char>>::empty());
    }
    None
}

/// The activated-venv binary candidates, in priority order.
pub open spec fn venv_candidates(venv: Seq<char>) -> Seq<Seq<char>> {
    seq![
        venv + "/bin/mojo-lsp-server"@,
        venv + "/bin/mojo-lsp"@,
        venv + "/bin/mojo"@,
    ]
}

/// Builds the activated-venv binary candidates.
pub fn venv_candidate_paths(venv: &str) -> (r: Vec<String>)
    ensures
        r.deep_view() == venv_candidates(venv@),
{
    let mut out: Vec<String> = Vec::new();
    out.push(concat2(venv, "/bin/mojo-lsp-server"));
    out.push(concat2(venv, "/bin/mojo-lsp"));
    out.push(concat2(venv, "/bin/mojo"));
    proof {
        assert(out.deep_view() =~~= venv_candidates(venv@));
    }
    out
}

/// Step two: the activated virtual environment, where the variable is set
/// and non-empty.
pub open spec fn spec_venv_step(ctx: WorkspaceContext) -> Option<Seq<char>> {
    match ctx.env_val("VIRTUAL_ENV"@) {
        Some(v) => if v.len() > 0 {
            first_existing(ctx, venv_candidates(v))
        } else {
            None
        },
        None => None,
    }
}

/// Searches the activated virtual environment.
pub fn venv_step(ctx: &WorkspaceContext) -> (r: Option<String>)
    ensures
        r.deep_view() == spec_venv_step(*ctx),
{
    match ctx.get_env("VIRTUAL_ENV") {
        Some(v) => {
            if v.as_str().unicode_len() > 0 {
                let cands = venv_candidate_paths(v.as_str());
                find_first_existing(ctx, &cands)
            } else {
                None
            }
        },
        None => None,
    }
}

/// The (marker file, binary path) pairs for project-local environments, in
/// priority order: two venv directory conventions crossed with three binary
/// name variants.
pub open spec fn marker_pairs() -> Seq<(Seq<char>, Seq<char>)> {
    seq![
        (".venv/pyvenv.cfg"@, ".venv/bin/mojo-lsp-server"@),
        (".venv/pyvenv.cfg"@, ".venv/bin/mojo-lsp"@),
        (".venv/pyvenv.cfg"@, ".venv/bin/mojo"@),
        ("venv/pyvenv.cfg"@, "venv/bin/mojo-lsp-server"@),
        ("venv/pyvenv.cfg"@, "venv/bin/mojo-lsp"@),
        ("venv/pyvenv.cfg"@, "venv/bin/mojo"@),
    ]
}

/// Builds the project-local (marker file, binary path) pairs.
pub fn marker_pair_list() -> (r: Vec<(String, String)>)
    ensures
        r.deep_view() == marker_pairs(),
{
    let mut out: Vec<(String, String)> = Vec::new();
    out.push((String::from_str(".venv/pyvenv.cfg"), String::from_str(".venv/bin/mojo-lsp-server")));
    out.push((String::from_str(".venv/pyvenv.cfg"), String::from_str(".venv/bin/mojo-lsp")));
    out.push((String::from_str(".venv/pyvenv.cfg"), String::from_str(".venv/bin/mojo")));
    out.push((String::from_str("venv/pyvenv.cfg"), String::from_str("venv/bin/mojo-lsp-server")));
    out.push((String::from_str("venv/pyvenv.cfg"), String::from_str("venv/bin/mojo-lsp")));
    out.push((String::from_str("venv/pyvenv.cfg"), String::from_str("venv/bin/mojo")));
    proof {
        assert(out.deep_view() =~~= marker_pairs());
    }
    out
}

/// The binary path of the first pair whose marker file can be read; the
/// marker's content does not matter, readability signals a local environment.
pub open spec fn first_readable(
    ctx: WorkspaceContext,
    pairs: Seq<(Seq<char>, Seq<char>)>,
) -> Option<Seq<char>>
    decreases pairs.len(),
{
    if pairs.len() == 0 {
        None
    } else if ctx.file_readable(pairs[0].0) {
        Some(pairs[0].1)
    } else {
        first_readable(ctx, pairs.drop_first())
    }
}

/// Finds the first pair whose marker file can be read.
pub fn find_first_readable(ctx: &WorkspaceContext, pairs: &Vec<(String, String)>) -> (r: Option<
    String,
>)
    ensures
        r.deep_view() == first_readable(*ctx, pairs.deep_view()),
{
    let ghost dv = pairs.deep_view();
    let mut i: usize = 0;
    proof {
        assert(dv.subrange(0, dv.len() as int) =~= dv);
    }
    while i < pairs.len()
        invariant
            0 <= i <= pairs.len(),
            dv == pairs.deep_view(),
            dv.len() == pairs.len(),
            first_readable(*ctx, dv) == first_readable(
                *ctx,
                dv.subrange(i as int, dv.len() as int),
            ),
        decreases pairs.len() - i,
    {
        proof {
            let sub = dv.subrange(i as int, dv.len() as int);
            assert(sub[0] == dv[i as int]);
            assert(sub.drop_first() =~= dv.subrange(i + 1 as int, dv.len() as int));
        }
        if ctx.readable_file(pairs[i].0.as_str()) {
            return Some(pairs[i].1.clone());
        }
        i = i + 1;
    }
    proof {
        assert(dv.subrange(dv.len() as int, dv.len() as int) =~= Seq::<
            (Seq<char>, Seq<char>),
        >::empty());
    }
    None
}

/// Step three: project-local environment markers.
pub open spec fn spec_local_step(ctx: WorkspaceContext) -> Option<Seq<char>> {
    first_readable(ctx, marker_pairs())
}

/// Searches for a project-local environment marker.
pub fn local_step(ctx: &WorkspaceContext) -> (r: Option<String>)
    ensures
        r.deep_view() == spec_local_step(*ctx),
{
    let pairs = marker_pair_list();
    find_first_readable(ctx, &pairs)
}

/// The executable names searched on the PATH, in priority order.
pub open spec fn which_names() -> Seq<Seq<char>> {
    seq!["mojo-lsp-server"@, "mojo-lsp"@, "mojo-language-server"@, "mojo"@]
}

/// Builds the executable names searched on the PATH.
pub fn which_name_list() -> (r: Vec<String>)
    ensures
        r.deep_view() == which_names(),
{
    let mut out: Vec<String> = Vec::new();
    out.push(String::from_str("mojo-lsp-server"));
    out.push(String::from_str("mojo-lsp"));
    out.push(String::from_str("mojo-language-server"));
    out.push(String::from_str("mojo"));
    proof {
        assert(out.deep_view() =~~= which_names());
    }
    out
}

/// The PATH lookup result for the first name that is found.
pub open spec fn first_which(ctx: WorkspaceContext, names: Seq<Seq<char>>) -> Option<Seq<char>>
    decreases names.len(),
{
    if names.len() == 0 {
        None
    } else {
        match ctx.which(names[0]) {
            Some(p) => Some(p),
            None => first_which(ctx, names.drop_first()),
        }
    }
}

/// Finds the PATH lookup result for the first name that is found.
pub fn find_first_which(ctx: &WorkspaceContext, names: &Vec<String>) -> (r: Option<String>)
    ensures
        r.deep_view() == first_which(*ctx, names.deep_view()),
{
    let ghost dv = names.deep_view();
    let mut i: usize = 0;
    proof {
        assert(dv.subrange(0, dv.len() as int) =~= dv);
    }
    while i < names.len()
        invariant
            0 <= i <= names.len(),
            dv == names.deep_view(),
            dv.len() == names.len(),
            first_which(*ctx, dv) == first_which(*ctx, dv.subrange(i as int, dv.len() as int)),
        decreases names.len() - i,
    {
        proof {
            let sub = dv.subrange(i as int, dv.len() as int);
            assert(sub[0] == dv[i as int]);
            assert(sub.drop_first() =~= dv.subrange(i + 1 as int, dv.len() as int));
        }
        match ctx.which_lookup(names[i].as_str()) {
            Some(p) => {
                return Some(p);
            },
            None => {},
        }
        i = i + 1;
    }
    proof {
        assert(dv.subrange(dv.len() as int, dv.len() as int) =~= Seq::<Seq<char>>::empty());
    }
    None
}

/// Step four: the system PATH.
pub open spec fn spec_path_step(ctx: WorkspaceContext) -> Option<Seq<char>> {
    first_which(ctx, which_names())
}

/// Searches the system PATH.
pub fn path_step(ctx: &WorkspaceContext) -> (r: Option<String>)
    ensures
        r.deep_view() == spec_path_step(*ctx),
{
    let names = which_name_list();
    find_first_which(ctx, &names)
}

/// The vendor-standard installation candidates under HOME, in priority
/// order; the bare tool name is deliberately not among them.
pub open spec fn vendor_candidates(home: Seq<char>) -> Seq<Seq<char>> {
    seq![
        home + "/.modular/pkg/packages.modular.com_mojo/bin/mojo-lsp-server"@,
        home + "/.modular/pkg/packages.modular.com_mojo/bin/mojo-lsp"@,
        home + "/.modular/bin/mojo-lsp-server"@,
        home + "/.modular/bin/mojo-lsp"@,
    ]
}

/// Builds the vendor-standard installation candidates.
pub fn vendor_candidate_paths(home: &str) -> (r: Vec<String>)
    ensures
        r.deep_view() == vendor_candidates(home@),
{
    let mut out: Vec<String> = Vec::new();
    out.push(concat2(home, "/.modular/pkg/packages.modular.com_mojo/bin/mojo-lsp-server"));
    out.push(concat2(home, "/.modular/pkg/packages.modular.com_mojo/bin/mojo-lsp"));
    out.push(concat2(home, "/.modular/bin/mojo-lsp-server"));
    out.push(concat2(home, "/.modular/bin/mojo-lsp"));
    proof {
        assert(out.deep_view() =~~= vendor_candidates(home@));
    }
    out
}

/// Step five: the vendor-standard installation under HOME.
pub open spec fn spec_vendor_step(ctx: WorkspaceContext) -> Option<Seq<char>> {
    match ctx.home.deep_view() {
        Some(h) => first_existing(ctx, vendor_candidates(h)),
        None => None,
    }
}

/// Searches the vendor-standard installation under HOME.
pub fn vendor_step(ctx: &WorkspaceContext) -> (r: Option<String>)
    ensures
        r.deep_view() == spec_vendor_step(*ctx),
{
    match &ctx.home {
        Some(h) => {
            let cands = vendor_candidate_paths(h.as_str());
            find_first_existing(ctx, &cands)
        },
        None => None,
    }
}

/// Resolves the vendor home directory.
pub fn vendor_home(ctx: &WorkspaceContext) -> (r: Option<String>)
    ensures
        r.deep_view() == spec_vendor_home(*ctx),
{
    match ctx.get_env("MODULAR_HOME") {
        Some(v) => Some(v),
        None => match &ctx.home {
            Some(h) => {
                let cand = concat2(h.as_str(), "/.modular");
                if ctx.on_disk(cand.as_str()) {
                    Some(cand)
                } else {
                    None
                }
            },
            None => None,
        },
    }
}

/// The diagnostic message returned when every discovery step fails: it
/// names what was checked, the working directory, and the PATH entries.
pub open spec fn spec_error_message(ctx: WorkspaceContext) -> Seq<char> {
    let venv = match ctx.env_val("VIRTUAL_ENV"@) {
        Some(v) => v,
        None => "Unset"@,
    };
    let cwd = match ctx.cwd.deep_view() {
        Some(c) => c,
        None => "Unknown"@,
    };
    let path = match ctx.env_val("PATH"@) {
        Some(p) => p,
        None => "Unset"@,
    };
    let path_list = join_with(split_colon(path), "\n- "@);
    "Mojo Language Server not found.\n\nChecked:\n- VIRTUAL_ENV: "@ + venv
        + "\n- Project .venv/venv roots\n- PATH and Standard Modular locations\n\nDebug Info:\n- CWD Check: "@
        + cwd + "\n- VENV Check: "@ + venv + "\n- PATH Check:\n- "@ + path_list
}

/// Builds the diagnostic message for a failed search.
pub fn error_message(ctx: &WorkspaceContext) -> (r: String)
    ensures
        r@ == spec_error_message(*ctx),
{
    let venv = match ctx.get_env("VIRTUAL_ENV") {
        Some(v) => v,
        None => String::from_str("Unset"),
    };
    let cwd = match &ctx.cwd {
        Some(c) => c.clone(),
        None => String::from_str("Unknown"),
    };
    let path = match ctx.get_env("PATH") {
        Some(p) => p,
        None => String::from_str("Unset"),
    };
    let segs = split_colon_exec(path.as_str());
    let path_list = join_strings(&segs, "\n- ");
    let mut s = String::from_str("Mojo Language Server not found.\n\nChecked:\n- VIRTUAL_ENV: ");
    s.append(venv.as_str());
    s.append(
        "\n- Project .venv/venv roots\n- PATH and Standard Modular locations\n\nDebug Info:\n- CWD Check: ",
    );
    s.append(cwd.as_str());
    s.append("\n- VENV Check: ");
    s.append(venv.as_str());
    s.append("\n- PATH Check:\n- ");
    s.append(path_list.as_str());
    s
}

/// The outcome of a fresh search, with the cache value it leaves behind:
/// the first step that succeeds wins, and only total exhaustion fails.
pub open spec fn spec_fresh(ctx: WorkspaceContext) -> (Result<CommandModel, Seq<char>>, Option<
    Seq<char>,
>) {
    match spec_venv_step(ctx) {
        Some(p) => (Ok(direct_command(ctx, p)), Some(p)),
        None => match spec_local_step(ctx) {
            Some(p) => (Ok(wrapped_command(ctx, p)), Some(p)),
            None => match spec_path_step(ctx) {
                Some(p) => (Ok(direct_command(ctx, p)), Some(p)),
                None => match spec_vendor_step(ctx) {
                    Some(p) => (Ok(direct_command(ctx, p)), Some(p)),
                    None => (Err(spec_error_message(ctx)), None),
                },
            },
        },
    }
}

/// The outcome of one resolution call, with the cache value after it. An
/// absolute cached path is trusted only while it exists on disk; a relative
/// cached path is always trusted and shell-wrapped.
pub open spec fn spec_resolve(ctx: WorkspaceContext, cache0: Option<Seq<char>>) -> (Result<
    CommandModel,
    Seq<char>,
>, Option<Seq<char>>) {
    match cache0 {
        Some(p) => if is_absolute(p) {
            if ctx.path_exists(p) {
                (Ok(direct_command(ctx, p)), cache0)
            } else {
                spec_fresh(ctx)
            }
        } else {
            (Ok(wrapped_command(ctx, p)), cache0)
        },
        None => spec_fresh(ctx),
    }
}

/// The outcome, as its mathematical shape.
pub open spec fn res_view(r: Result<ResolvedCommand, String>) -> Result<CommandModel, Seq<char>> {
    match r {
        Ok(c) => Ok(c@),
        Err(e) => Err(e@),
    }
}

/// Builds the direct command for a resolved path.
fn make_direct(ctx: &WorkspaceContext, path: &str, env: &Vec<(String, String)>) -> (r:
    ResolvedCommand)
    requires
        env.deep_view() == spec_base_env(*ctx),
    ensures
        r@ == direct_command(*ctx, path@),
{
    ResolvedCommand {
        command: String::from_str(path),
        args: derive_args(path),
        env: clone_pairs(env),
    }
}

/// Builds the shell-wrapped command for a resolved relative path.
fn make_wrapped(ctx: &WorkspaceContext, path: &str, env: &Vec<(String, String)>) -> (r:
    ResolvedCommand)
    requires
        env.deep_view() == spec_base_env(*ctx),
    ensures
        r@ == wrapped_command(*ctx, path@),
{
    let args = derive_args(path);
    let script = build_script(path, &args);
    let mut argv: Vec<String> = Vec::new();
    argv.push(String::from_str("-c"));
    argv.push(script);
    proof {
        assert(argv.deep_view() =~~= seq!["-c"@, script_of(path@, spec_derive_args(path@))]);
    }
    ResolvedCommand { command: String::from_str("/bin/sh"), args: argv, env: clone_pairs(env) }
}

/// A fresh copy of an optional string.
fn clone_opt(o: &Option<String>) -> (r: Option<String>)
    ensures
        r.deep_view() == o.deep_view(),
{
    match o {
        Some(s) => Some(s.clone()),
        None => None,
    }
}

/// One full resolution pass: the cache check, then the four discovery steps
/// in order, then the diagnostic failure. The cache is set on any fresh
/// success and cleared when a stale absolute entry is found.
pub fn resolve(ctx: &WorkspaceContext, cached: &mut Option<String>) -> (r: Result<
    ResolvedCommand,
    String,
>)
    ensures
        res_view(r) == spec_resolve(*ctx, old(cached).deep_view()).0,
        final(cached).deep_view() == spec_resolve(*ctx, old(cached).deep_view()).1,
{
    let vh = vendor_home(ctx);
    let env = compose_env(&ctx.shell_env, &vh);
    proof {
        assert(env.deep_view() == spec_base_env(*ctx));
    }
    match clone_opt(cached) {
        Some(p) => {
            if is_absolute_path(p.as_str()) {
                if ctx.on_disk(p.as_str()) {
                    return Ok(make_direct(ctx, p.as_str(), &env));
                }
                *cached = None;
            } else {
                return Ok(make_wrapped(ctx, p.as_str(), &env));
            }
        },
        None => {},
    }
    match venv_step(ctx) {
        Some(p) => {
            *cached = Some(p.clone());
            return Ok(make_direct(ctx, p.as_str(), &env));
        },
        None => {},
    }
    match local_step(ctx) {
        Some(p) => {
            *cached = Some(p.clone());
            return Ok(make_wrapped(ctx, p.as_str(), &env));
        },
        None => {},
    }
    match path_step(ctx) {
        Some(p) => {
            *cached = Some(p.clone());
            return Ok(make_direct(ctx, p.as_str(), &env));
        },
        None => {},
    }
    match vendor_step(ctx) {
        Some(p) => {
            *cached = Some(p.clone());
            return Ok(make_direct(ctx, p.as_str(), &env));
        },
        None => {},
    }
    *cached = None;
    Err(error_message(ctx))
}

/// Every absolute path the resolver may test for existence, given the shell
/// environment, the HOME directory and the cache slot. A caller that builds
/// a snapshot probes these on disk and records the ones that exist.
pub open spec fn spec_stat_probes(
    env: Seq<(Seq<char>, Seq<char>)>,
    home: Option<Seq<char>>,
    cached: Option<Seq<char>>,
) -> Seq<Seq<char>> {
    (match cached {
        Some(p) => if is_absolute(p) {
            seq![p]
        } else {
            Seq::<Seq<char>>::empty()
        },
        None => Seq::<Seq<char>>::empty(),
    }) + (match home {
        Some(h) => seq![h + "/.modular"@],
        None => Seq::<Seq<char>>::empty(),
    }) + (match first_val(env, "VIRTUAL_ENV"@) {
        Some(v) => if v.len() > 0 {
            venv_candidates(v)
        } else {
            Seq::<Seq<char>>::empty()
        },
        None => Seq::<Seq<char>>::empty(),
    }) + (match home {
        Some(h) => vendor_candidates(h),
        None => Seq::<Seq<char>>::empty(),
    })
}

/// Builds the list of absolute paths to probe for existence.
pub fn stat_probe_paths(
    shell_env: &Vec<(String, String)>,
    home: &Option<String>,
    cached: &Option<String>,
) -> (r: Vec<String>)
    ensures
        r.deep_view() == spec_stat_probes(
            shell_env.deep_view(),
            home.deep_view(),
            cached.deep_view(),
        ),
{
    let mut out: Vec<String> = Vec::new();
    match cached {
        Some(p) => {
            if is_absolute_path(p.as_str()) {
                out.push(p.clone());
            }
        },
        None => {},
    }
    match home {
        Some(h) => {
            out.push(concat2(h.as_str(), "/.modular"));
        },
        None => {},
    }
    match crate::context::lookup_first(shell_env, "VIRTUAL_ENV") {
        Some(v) => {
            if v.as_str().unicode_len() > 0 {
                let mut cands = venv_candidate_paths(v.as_str());
                out.append(&mut cands);
            }
        },
        None => {},
    }
    match home {
        Some(h) => {
            let mut cands = vendor_candidate_paths(h.as_str());
            out.append(&mut cands);
        },
        None => {},
    }
    proof {
        assert(out.deep_view() =~~= spec_stat_probes(
            shell_env.deep_view(),
            home.deep_view(),
            cached.deep_view(),
        ));
    }
    out
}

/// The workspace-relative marker files whose readability the resolver
/// tests. A caller that builds a snapshot attempts to read each and records
/// the ones that succeed.
pub fn marker_probe_paths() -> (r: Vec<String>)
    ensures
        r.deep_view() == seq![".venv/pyvenv.cfg"@, "venv/pyvenv.cfg"@],
{
    let mut out: Vec<String> = Vec::new();
    out.push(String::from_str(".venv/pyvenv.cfg"));
    out.push(String::from_str("venv/pyvenv.cfg"));
    proof {
        assert(out.deep_view() =~~= seq![".venv/pyvenv.cfg"@, "venv/pyvenv.cfg"@]);
    }
    out
}

/// The session state: one optional cached path from a prior successful
/// resolution, empty at construction.
pub struct ResolverState {
    pub cached_binary_path: Option<String>,
}

impl ResolverState {
    /// A fresh state with an empty cache slot.
    pub fn new() -> (r: ResolverState)
        ensures
            r.cached_binary_path.deep_view() is None,
    {
        ResolverState { cached_binary_path: None }
    }

    /// One resolution pass against this state's cache slot.
    pub fn resolve_with(&mut self, ctx: &WorkspaceContext) -> (r: Result<ResolvedCommand, String>)
        ensures
            res_view(r) == spec_resolve(*ctx, old(self).cached_binary_path.deep_view()).0,
            final(self).cached_binary_path.deep_view() == spec_resolve(
                *ctx,
                old(self).cached_binary_path.deep_view(),
            ).1,
    {
        resolve(ctx, &mut self.cached_binary_path)
    }
}

} // verus!
