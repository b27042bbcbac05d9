use vstd::prelude::*;
use crate::context::WorkspaceContext;
use crate::command::{CommandModel, spec_derive_args, spec_is_bare_tool, script_of, without_key};
use crate::strutil::{
    last_segment, join_with, split_colon, has_substring, lemma_has_substring_extend_right,
    lemma_has_substring_extend_left, lemma_has_substring_middle, lemma_join_each,
};
use crate::resolver::{
    spec_resolve, spec_fresh, spec_vendor_home, spec_base_env, spec_venv_step, spec_local_step,
    spec_path_step, spec_vendor_step, spec_error_message, direct_command, wrapped_command,
    is_absolute, first_existing, first_readable, first_which, venv_candidates, marker_pairs,
    which_names, vendor_candidates,
};

verus! {

/// An absolute cached path that still exists on disk is returned at once as
/// a direct command, and no discovery step is consulted: the outcome depends
/// on nothing but the cached path and the outgoing environment.
pub proof fn lemma_cache_hit_absolute(ctx: WorkspaceContext, p: Seq<char>)
    requires
        is_absolute(p),
        ctx.path_exists(p),
    ensures
        spec_resolve(ctx, Some(p)) == (Ok::<CommandModel, Seq<char>>(direct_command(ctx, p)), Some(
            p,
        )),
        direct_command(ctx, p).command == p,
        direct_command(ctx, p).args == spec_derive_args(p),
{
}

/// An absolute cached path that no longer exists is dropped, and the call
/// behaves exactly as a fresh search from an empty cache; on a failed fresh
/// search the cache slot ends empty.
pub proof fn lemma_cache_stale(ctx: WorkspaceContext, p: Seq<char>)
    requires
        is_absolute(p),
        !ctx.path_exists(p),
    ensures
        spec_resolve(ctx, Some(p)) == spec_fresh(ctx),
        spec_resolve(ctx, Some(p)) == spec_resolve(ctx, None),
        spec_fresh(ctx).0 is Err ==> spec_fresh(ctx).1 is None,
{
}

/// A relative cached path is trusted without any existence check: the call
/// always returns the shell-wrapped command for it and keeps the cache.
pub proof fn lemma_cache_relative(ctx: WorkspaceContext, p: Seq<char>)
    requires
        !is_absolute(p),
    ensures
        spec_resolve(ctx, Some(p)) == (Ok::<CommandModel, Seq<char>>(wrapped_command(ctx, p)),
        Some(p)),
        wrapped_command(ctx, p).command == "/bin/sh"@,
        wrapped_command(ctx, p).args == seq!["-c"@, script_of(p, spec_derive_args(p))],
{
}

/// The argument rule: a path whose final segment is the bare tool name gets
/// the single server-mode flag, every other resolved name gets no arguments.
pub proof fn lemma_argument_rule(path: Seq<char>)
    ensures
        last_segment(path) == "mojo"@ ==> spec_derive_args(path) == seq!["lsp"@],
        last_segment(path) != "mojo"@ ==> spec_derive_args(path) == Seq::<Seq<char>>::empty(),
{
    assert(spec_is_bare_tool(path) == (last_segment(path) == "mojo"@));
}

/// The activated virtual environment wins over every later step: when it
/// yields a binary, the fresh search returns that binary as a direct
/// command, whatever the PATH or the vendor installation would yield.
pub proof fn lemma_venv_wins(ctx: WorkspaceContext)
    requires
        spec_venv_step(ctx) is Some,
    ensures
        spec_fresh(ctx) == (Ok::<CommandModel, Seq<char>>(
            direct_command(ctx, spec_venv_step(ctx)->0),
        ), Some(spec_venv_step(ctx)->0)),
{
}

/// Among the venv binary-name candidates the server name beats the short
/// alias, and the short alias beats the bare tool name, in that fixed order.
pub proof fn lemma_venv_candidate_priority(ctx: WorkspaceContext, v: Seq<char>)
    ensures
        ctx.path_exists(v + "/bin/mojo-lsp-server"@) ==> first_existing(ctx, venv_candidates(v))
            == Some(v + "/bin/mojo-lsp-server"@),
        !ctx.path_exists(v + "/bin/mojo-lsp-server"@) && ctx.path_exists(v + "/bin/mojo-lsp"@)
            ==> first_existing(ctx, venv_candidates(v)) == Some(v + "/bin/mojo-lsp"@),
        !ctx.path_exists(v + "/bin/mojo-lsp-server"@) && !ctx.path_exists(v + "/bin/mojo-lsp"@)
            && ctx.path_exists(v + "/bin/mojo"@) ==> first_existing(ctx, venv_candidates(v))
            == Some(v + "/bin/mojo"@),
        !ctx.path_exists(v + "/bin/mojo-lsp-server"@) && !ctx.path_exists(v + "/bin/mojo-lsp"@)
            && !ctx.path_exists(v + "/bin/mojo"@) ==> first_existing(ctx, venv_candidates(v))
            is None,
{
    let c0 = v + "/bin/mojo-lsp-server"@;
    let c1 = v + "/bin/mojo-lsp"@;
    let c2 = v + "/bin/mojo"@;
    let s0 = venv_candidates(v);
    let s1 = seq![c1, c2];
    let s2 = seq![c2];
    assert(s0.drop_first() =~= s1);
    assert(s1.drop_first() =~= s2);
    assert(s2.drop_first() =~= Seq::<Seq<char>>::empty());
    assert(first_existing(ctx, Seq::<Seq<char>>::empty()) is None);
    assert(first_existing(ctx, s0) == if ctx.path_exists(c0) {
        Some(c0)
    } else {
        first_existing(ctx, s1)
    });
    assert(first_existing(ctx, s1) == if ctx.path_exists(c1) {
        Some(c1)
    } else {
        first_existing(ctx, s2)
    });
    assert(first_existing(ctx, s2) == if ctx.path_exists(c2) {
        Some(c2)
    } else {
        None
    });
}

/// Entries under other keys survive the removal of `key`.
proof fn lemma_without_key_keeps(
    pairs: Seq<(Seq<char>, Seq<char>)>,
    key: Seq<char>,
    kv: (Seq<char>, Seq<char>),
)
    requires
        pairs.contains(kv),
        kv.0 != key,
    ensures
        without_key(pairs, key).contains(kv),
    decreases pairs.len(),
{
    if pairs.len() == 0 {
    } else {
        let front = without_key(pairs.drop_last(), key);
        if pairs.last() == kv {
            assert(without_key(pairs, key) == front.push(kv));
            assert(front.push(kv)[front.len() as int] == kv);
        } else {
            let i = choose|i: int| 0 <= i < pairs.len() && pairs[i] == kv;
            assert(pairs.drop_last()[i] == kv);
            assert(pairs.drop_last().contains(kv));
            lemma_without_key_keeps(pairs.drop_last(), key, kv);
            let j = choose|j: int| 0 <= j < front.len() && front[j] == kv;
            if pairs.last().0 == key {
            } else {
                assert(front.push(pairs.last())[j] == kv);
            }
        }
    }
}

/// No entry under the removed key survives.
proof fn lemma_without_key_none(pairs: Seq<(Seq<char>, Seq<char>)>, key: Seq<char>)
    ensures
        forall|i: int|
            0 <= i < without_key(pairs, key).len() ==> (#[trigger] without_key(pairs, key)[i]).0
                != key,
    decreases pairs.len(),
{
    if pairs.len() == 0 {
    } else {
        lemma_without_key_none(pairs.drop_last(), key);
        let front = without_key(pairs.drop_last(), key);
        if pairs.last().0 == key {
        } else {
            let w = front.push(pairs.last());
            assert(without_key(pairs, key) == w);
            assert forall|i: int| 0 <= i < w.len() implies (#[trigger] w[i]).0 != key by {
                if i < front.len() {
                    assert(w[i] == front[i]);
                } else {
                    assert(w[i] == pairs.last());
                }
            }
        }
    }
}

/// At most one entry under `key` occurs in the pair list.
pub open spec fn at_most_one_key(pairs: Seq<(Seq<char>, Seq<char>)>, key: Seq<char>) -> bool {
    forall|i: int, j: int|
        0 <= i < pairs.len() && 0 <= j < pairs.len() && (#[trigger] pairs[i]).0 == key && (
        #[trigger] pairs[j]).0 == key ==> i == j
}

/// Where `key` occurs at most once, the entry that carries it is the one
/// the first-match lookup finds.
proof fn lemma_first_val_unique(
    pairs: Seq<(Seq<char>, Seq<char>)>,
    key: Seq<char>,
    kv: (Seq<char>, Seq<char>),
)
    requires
        pairs.contains(kv),
        kv.0 == key,
        at_most_one_key(pairs, key),
    ensures
        crate::context::first_val(pairs, key) == Some(kv.1),
    decreases pairs.len(),
{
    let i = choose|i: int| 0 <= i < pairs.len() && pairs[i] == kv;
    if pairs[0].0 == key {
        assert(i == 0);
    } else {
        assert(i != 0);
        let rest = pairs.drop_first();
        assert(rest[i - 1] == kv);
        assert(rest.contains(kv));
        assert(at_most_one_key(rest, key)) by {
            assert forall|m: int, n: int|
                0 <= m < rest.len() && 0 <= n < rest.len() && (#[trigger] rest[m]).0 == key && (
                #[trigger] rest[n]).0 == key implies m == n by {
                assert(pairs[m + 1] == rest[m]);
                assert(pairs[n + 1] == rest[n]);
            }
        }
        lemma_first_val_unique(rest, key, kv);
    }
}

/// Environment passthrough: every returned command's environment carries the
/// shell snapshot through. Entries under other keys always survive; with no
/// vendor home the snapshot is handed on unchanged; with one, exactly the
/// last entry carries the vendor-home key and holds the computed value; and
/// where the snapshot itself holds the key at most once, the whole snapshot
/// survives.
pub proof fn lemma_env_passthrough(ctx: WorkspaceContext)
    ensures
        forall|kv: (Seq<char>, Seq<char>)|
            #[trigger] ctx.env().contains(kv) && kv.0 != "MODULAR_HOME"@ ==> spec_base_env(
                ctx,
            ).contains(kv),
        spec_vendor_home(ctx) is None ==> spec_base_env(ctx) == ctx.env(),
        spec_vendor_home(ctx) is Some ==> {
            let b = spec_base_env(ctx);
            &&& b.len() >= 1
            &&& b.last() == ("MODULAR_HOME"@, spec_vendor_home(ctx)->0)
            &&& forall|i: int| 0 <= i < b.len() - 1 ==> (#[trigger] b[i]).0 != "MODULAR_HOME"@
        },
        at_most_one_key(ctx.env(), "MODULAR_HOME"@) ==> forall|kv: (Seq<char>, Seq<char>)|
            #[trigger] ctx.env().contains(kv) ==> spec_base_env(ctx).contains(kv),
{
    let key = "MODULAR_HOME"@;
    let env = ctx.env();
    let b = spec_base_env(ctx);
    match spec_vendor_home(ctx) {
        None => {},
        Some(vh) => {
            let w = without_key(env, key);
            assert(b == w.push((key, vh)));
            lemma_without_key_none(env, key);
            assert forall|kv: (Seq<char>, Seq<char>)|
                #[trigger] env.contains(kv) && kv.0 != key implies b.contains(kv) by {
                lemma_without_key_keeps(env, key, kv);
                let j = choose|j: int| 0 <= j < w.len() && w[j] == kv;
                assert(b[j] == kv);
            }
            if at_most_one_key(env, key) {
                assert forall|kv: (Seq<char>, Seq<char>)|
                    #[trigger] env.contains(kv) implies b.contains(kv) by {
                    if kv.0 == key {
                        lemma_first_val_unique(env, key, kv);
                        assert(ctx.env_val(key) == Some(kv.1));
                        assert(vh == kv.1);
                        assert(b.last() == kv);
                    } else {
                        lemma_without_key_keeps(env, key, kv);
                        let j = choose|j: int| 0 <= j < w.len() && w[j] == kv;
                        assert(b[j] == kv);
                    }
                }
            }
        },
    }
}

/// When every discovery step fails, the diagnostic message names the
/// activated-venv variable, carries the working directory value, and lists
/// every colon-separated PATH entry on its own dash-prefixed line.
pub proof fn lemma_error_diagnostics(ctx: WorkspaceContext)
    ensures
        has_substring(spec_error_message(ctx), "VIRTUAL_ENV"@),
        has_substring(
            spec_error_message(ctx),
            match ctx.cwd.deep_view() {
                Some(c) => c,
                None => "Unknown"@,
            },
        ),
        ({
            let path = match ctx.env_val("PATH"@) {
                Some(p) => p,
                None => "Unset"@,
            };
            forall|k: int|
                0 <= k < split_colon(path).len() ==> has_substring(
                    spec_error_message(ctx),
                    "\n- "@ + #[trigger] split_colon(path)[k],
                )
        }),
{
    let venv = match ctx.env_val("VIRTUAL_ENV"@) {
        Some(v) => v,
        None => "Unset"@,
    };
    let cwd = match ctx.cwd.deep_view() {
        Some(c) => c,
        None => "Unknown"@,
    };
    let path = match ctx.env_val("PATH"@) {
        Some(p) => p,
        None => "Unset"@,
    };
    let sep = "\n- "@;
    let plist = join_with(split_colon(path), sep);
    let l1 = "Mojo Language Server not found.\n\nChecked:\n- VIRTUAL_ENV: "@;
    let l2 =
        "\n- Project .venv/venv roots\n- PATH and Standard Modular locations\n\nDebug Info:\n- CWD Check: "@;
    let l3 = "\n- VENV Check: "@;
    let l4 = "\n- PATH Check:\n- "@;
    let m = spec_error_message(ctx);
    let t1 = l1 + venv;
    let t2 = t1 + l2;
    let t3 = t2 + cwd;
    let t4 = t3 + l3;
    let t5 = t4 + venv;
    let t6 = t5 + l4;
    assert(m == t6 + plist);
    // The venv variable's name stands in the leading literal.
    reveal_strlit("Mojo Language Server not found.\n\nChecked:\n- VIRTUAL_ENV: ");
    reveal_strlit("VIRTUAL_ENV");
    let needle = "VIRTUAL_ENV"@;
    assert(l1.subrange(44, 44 + needle.len() as int) =~= needle);
    assert(has_substring(l1, needle));
    lemma_has_substring_extend_right(l1, venv, needle);
    lemma_has_substring_extend_right(t1, l2, needle);
    lemma_has_substring_extend_right(t2, cwd, needle);
    lemma_has_substring_extend_right(t3, l3, needle);
    lemma_has_substring_extend_right(t4, venv, needle);
    lemma_has_substring_extend_right(t5, l4, needle);
    lemma_has_substring_extend_right(t6, plist, needle);
    // The working directory stands between the second and third literal.
    lemma_has_substring_middle(t2, cwd, Seq::<char>::empty());
    assert(t2 + cwd + Seq::<char>::empty() =~= t3);
    lemma_has_substring_extend_right(t3, l3, cwd);
    lemma_has_substring_extend_right(t4, venv, cwd);
    lemma_has_substring_extend_right(t5, l4, cwd);
    lemma_has_substring_extend_right(t6, plist, cwd);
    // Each PATH entry follows a dash-prefixed separator in the final block.
    reveal_strlit("\n- PATH Check:\n- ");
    reveal_strlit("\n- PATH Check:");
    reveal_strlit("\n- ");
    let l4a = "\n- PATH Check:"@;
    assert(l4 =~= l4a + sep);
    assert(m =~= (t5 + l4a) + (sep + plist));
    assert forall|k: int| 0 <= k < split_colon(path).len() implies has_substring(
        m,
        sep + #[trigger] split_colon(path)[k],
    ) by {
        lemma_join_each(split_colon(path), sep, k);
        lemma_has_substring_extend_left(t5 + l4a, sep + plist, sep + split_colon(path)[k]);
    }
}

/// A found first-existing candidate exists on disk and is one of the list.
proof fn lemma_first_existing_found(ctx: WorkspaceContext, paths: Seq<Seq<char>>)
    requires
        first_existing(ctx, paths) is Some,
    ensures
        ctx.path_exists(first_existing(ctx, paths)->0),
        exists|i: int| 0 <= i < paths.len() && paths[i] == first_existing(ctx, paths)->0,
    decreases paths.len(),
{
    if paths.len() == 0 {
    } else if ctx.path_exists(paths[0]) {
        assert(paths[0] == first_existing(ctx, paths)->0);
    } else {
        lemma_first_existing_found(ctx, paths.drop_first());
        let rest = paths.drop_first();
        let i = choose|i: int| 0 <= i < rest.len() && rest[i] == first_existing(ctx, rest)->0;
        assert(paths[i + 1] == rest[i]);
    }
}

/// A found first-readable hit hands back the binary path of one pair.
proof fn lemma_first_readable_found(ctx: WorkspaceContext, pairs: Seq<(Seq<char>, Seq<char>)>)
    requires
        first_readable(ctx, pairs) is Some,
    ensures
        exists|i: int|
            0 <= i < pairs.len() && (#[trigger] pairs[i]).1 == first_readable(ctx, pairs)->0,
    decreases pairs.len(),
{
    if pairs.len() == 0 {
    } else if ctx.file_readable(pairs[0].0) {
        assert((pairs[0]).1 == first_readable(ctx, pairs)->0);
    } else {
        lemma_first_readable_found(ctx, pairs.drop_first());
        let rest = pairs.drop_first();
        let i = choose|i: int|
            0 <= i < rest.len() && (#[trigger] rest[i]).1 == first_readable(ctx, rest)->0;
        assert(pairs[i + 1] == rest[i]);
    }
}

/// A found first-which hit is the PATH lookup result of one of the names.
proof fn lemma_first_which_found(ctx: WorkspaceContext, names: Seq<Seq<char>>)
    requires
        first_which(ctx, names) is Some,
    ensures
        exists|i: int|
            0 <= i < names.len() && ctx.which(#[trigger] names[i]) == Some(
                first_which(ctx, names)->0,
            ),
    decreases names.len(),
{
    if names.len() == 0 {
    } else {
        match ctx.which(names[0]) {
            Some(p) => {
                assert(ctx.which(names[0]) == Some(first_which(ctx, names)->0));
            },
            None => {
                lemma_first_which_found(ctx, names.drop_first());
                let rest = names.drop_first();
                let i = choose|i: int|
                    0 <= i < rest.len() && ctx.which(#[trigger] rest[i]) == Some(
                        first_which(ctx, rest)->0,
                    );
                assert(names[i + 1] == rest[i]);
            },
        }
    }
}

/// The side condition under which every freshly cached path round-trips:
/// the activated-venv directory and the HOME directory, where set and
/// non-empty, are absolute.
pub open spec fn roots_absolute(ctx: WorkspaceContext) -> bool {
    &&& match ctx.env_val("VIRTUAL_ENV"@) {
        Some(v) => v.len() > 0 ==> v[0] == '/',
        None => true,
    }
    &&& match ctx.home.deep_view() {
        Some(h) => h.len() > 0 ==> h[0] == '/',
        None => true,
    }
}

/// Replaying the cache that a fresh search leaves behind short-circuits
/// through the cache branch and returns the same outcome.
proof fn lemma_fresh_replay(ctx: WorkspaceContext)
    requires
        ctx.wf(),
        roots_absolute(ctx),
    ensures
        spec_resolve(ctx, spec_fresh(ctx).1) == spec_fresh(ctx),
{
    match spec_venv_step(ctx) {
        Some(p) => {
            let v = ctx.env_val("VIRTUAL_ENV"@)->0;
            lemma_first_existing_found(ctx, venv_candidates(v));
            let cands = venv_candidates(v);
            let i = choose|i: int| 0 <= i < cands.len() && cands[i] == p;
            assert(p == v + "/bin/mojo-lsp-server"@ || p == v + "/bin/mojo-lsp"@ || p == v
                + "/bin/mojo"@);
            assert(v.len() > 0);
            assert(p[0] == v[0]);
            assert(is_absolute(p));
        },
        None => match spec_local_step(ctx) {
            Some(p) => {
                lemma_first_readable_found(ctx, marker_pairs());
                let pairs = marker_pairs();
                let i = choose|i: int| 0 <= i < pairs.len() && (#[trigger] pairs[i]).1 == p;
                reveal_strlit(".venv/bin/mojo-lsp-server");
                reveal_strlit(".venv/bin/mojo-lsp");
                reveal_strlit(".venv/bin/mojo");
                reveal_strlit("venv/bin/mojo-lsp-server");
                reveal_strlit("venv/bin/mojo-lsp");
                reveal_strlit("venv/bin/mojo");
                assert(p[0] == '.' || p[0] == 'v');
                assert(!is_absolute(p));
            },
            None => match spec_path_step(ctx) {
                Some(p) => {
                    lemma_first_which_found(ctx, which_names());
                    let names = which_names();
                    let i = choose|i: int|
                        0 <= i < names.len() && ctx.which(#[trigger] names[i]) == Some(p);
                    ctx.lemma_which_wf(names[i]);
                    assert(is_absolute(p));
                    assert(ctx.path_exists(p));
                },
                None => match spec_vendor_step(ctx) {
                    Some(p) => {
                        let h = ctx.home.deep_view()->0;
                        lemma_first_existing_found(ctx, vendor_candidates(h));
                        let cands = vendor_candidates(h);
                        let i = choose|i: int| 0 <= i < cands.len() && cands[i] == p;
                        reveal_strlit("/.modular/pkg/packages.modular.com_mojo/bin/mojo-lsp-server");
                        reveal_strlit("/.modular/pkg/packages.modular.com_mojo/bin/mojo-lsp");
                        reveal_strlit("/.modular/bin/mojo-lsp-server");
                        reveal_strlit("/.modular/bin/mojo-lsp");
                        if h.len() > 0 {
                            assert(p[0] == h[0]);
                        } else {
                            assert(p[0] == '/');
                        }
                        assert(is_absolute(p));
                    },
                    None => {},
                },
            },
        },
    }
}

/// Idempotence: a second call with an unchanged snapshot returns the same
/// outcome and leaves the same cache, short-circuiting through the cache.
pub proof fn lemma_resolve_idempotent(ctx: WorkspaceContext, cache0: Option<Seq<char>>)
    requires
        ctx.wf(),
        roots_absolute(ctx),
    ensures
        spec_resolve(ctx, spec_resolve(ctx, cache0).1) == spec_resolve(ctx, cache0),
{
    match cache0 {
        Some(p) => {
            if is_absolute(p) && !ctx.path_exists(p) {
                lemma_fresh_replay(ctx);
            }
        },
        None => {
            lemma_fresh_replay(ctx);
        },
    }
}

} // verus!
