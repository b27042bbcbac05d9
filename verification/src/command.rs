use vstd::prelude::*;
use vstd::string::*;
use crate::strutil::{last_segment, last_segment_of, join_with, join_strings, str_eq};

verus! {

/// The command to launch: a program, its arguments, and its environment.
pub struct ResolvedCommand {
    pub command: String,
    pub args: Vec<String>,
    pub env: Vec<(String, String)>,
}

/// The mathematical shape of a resolved command.
pub struct CommandModel {
    pub command: Seq<char>,
    pub args: Seq<Seq<char>>,
    pub env: Seq<(Seq<char>, Seq<char>)>,
}

impl View for ResolvedCommand {
    type V = CommandModel;

    open spec fn view(&self) -> CommandModel {
        CommandModel {
            command: self.command@,
            args: self.args.deep_view(),
            env: self.env.deep_view(),
        }
    }
}

/// Whether the final path segment is the bare tool name; such a binary is
/// launched in server mode, a server-specific name needs no arguments.
pub open spec fn spec_is_bare_tool(path: Seq<char>) -> bool {
    last_segment(path) == "mojo"@
}

/// The arguments derived from a resolved path: the server-mode flag for the
/// bare tool name, nothing otherwise.
pub open spec fn spec_derive_args(path: Seq<char>) -> Seq<Seq<char>> {
    if spec_is_bare_tool(path) {
        seq!["lsp"@]
    } else {
        Seq::<Seq<char>>::empty()
    }
}

/// Derives the argument list for a resolved path.
pub fn derive_args(path: &str) -> (r: Vec<String>)
    ensures
        r.deep_view() == spec_derive_args(path@),
{
    let seg = last_segment_of(path);
    let mut out: Vec<String> = Vec::new();
    if str_eq(seg.as_str(), "mojo") {
        out.push(String::from_str("lsp"));
        proof {
            assert(out.deep_view() =~~= seq!["lsp"@]);
        }
    } else {
        proof {
            assert(out.deep_view() =~~= Seq::<Seq<char>>::empty());
        }
    }
    out
}

/// The POSIX shell line that `exec`s the command, so that a relative path
/// resolves against the project root at launch time.
pub open spec fn script_of(path: Seq<char>, args: Seq<Seq<char>>) -> Seq<char> {
    "exec "@ + path + " "@ + join_with(args, " "@)
}

/// Builds the shell line for a path and its arguments.
pub fn build_script(path: &str, args: &Vec<String>) -> (r: String)
    ensures
        r@ == script_of(path@, args.deep_view()),
{
    let joined = join_strings(args, " ");
    let mut s = String::from_str("exec ");
    s.append(path);
    s.append(" ");
    s.append(joined.as_str());
    s
}

/// The pairs with every entry under `key` removed, order kept.
pub open spec fn without_key(pairs: Seq<(Seq<char>, Seq<char>)>, key: Seq<char>) -> Seq<
    (Seq<char>, Seq<char>),
>
    decreases pairs.len(),
{
    if pairs.len() == 0 {
        pairs
    } else {
        let front = without_key(pairs.drop_last(), key);
        if pairs.last().0 == key {
            front
        } else {
            front.push(pairs.last())
        }
    }
}

/// Removes every entry under `key`, keeping the order of the rest.
pub fn remove_key(pairs: &Vec<(String, String)>, key: &str) -> (r: Vec<(String, String)>)
    ensures
        r.deep_view() == without_key(pairs.deep_view(), key@),
{
    let ghost dv = pairs.deep_view();
    let mut out: Vec<(String, String)> = Vec::new();
    let mut i: usize = 0;
    proof {
        assert(dv.take(0) =~= Seq::<(Seq<char>, Seq<char>)>::empty());
        assert(out.deep_view() =~~= without_key(dv.take(0), key@));
    }
    while i < pairs.len()
        invariant
            0 <= i <= pairs.len(),
            dv == pairs.deep_view(),
            dv.len() == pairs.len(),
            out.deep_view() == without_key(dv.take(i as int), key@),
        decreases pairs.len() - i,
    {
        proof {
            let now = dv.take(i + 1 as int);
            assert(now.drop_last() =~= dv.take(i as int));
            assert(now.last() == dv[i as int]);
        }
        if !str_eq(pairs[i].0.as_str(), key) {
            let ghost old_out = out.deep_view();
            out.push((pairs[i].0.clone(), pairs[i].1.clone()));
            proof {
                assert(out.deep_view() =~~= old_out.push(dv[i as int]));
            }
        }
        i = i + 1;
    }
    proof {
        assert(dv.take(dv.len() as int) =~= dv);
    }
    out
}

/// A fresh copy of the pair list.
pub fn clone_pairs(pairs: &Vec<(String, String)>) -> (r: Vec<(String, String)>)
    ensures
        r.deep_view() == pairs.deep_view(),
{
    let ghost dv = pairs.deep_view();
    let mut out: Vec<(String, String)> = Vec::new();
    let mut i: usize = 0;
    while i < pairs.len()
        invariant
            0 <= i <= pairs.len(),
            dv == pairs.deep_view(),
            dv.len() == pairs.len(),
            out.deep_view() == dv.take(i as int),
        decreases pairs.len() - i,
    {
        let ghost old_out = out.deep_view();
        out.push((pairs[i].0.clone(), pairs[i].1.clone()));
        proof {
            assert(out.deep_view() =~~= old_out.push(dv[i as int]));
            assert(old_out.push(dv[i as int]) =~~= dv.take(i + 1 as int));
        }
        i = i + 1;
    }
    proof {
        assert(dv.take(dv.len() as int) =~= dv);
    }
    out
}

/// The environment handed to every returned command: the full shell snapshot,
/// with the vendor-home key overridden when a vendor home was resolved.
pub open spec fn composed_env(
    env: Seq<(Seq<char>, Seq<char>)>,
    vendor_home: Option<Seq<char>>,
) -> Seq<(Seq<char>, Seq<char>)> {
    match vendor_home {
        Some(p) => without_key(env, "MODULAR_HOME"@).push(("MODULAR_HOME"@, p)),
        None => env,
    }
}

/// Composes the outgoing environment from the shell snapshot and the
/// resolved vendor home, if any.
pub fn compose_env(env: &Vec<(String, String)>, vendor_home: &Option<String>) -> (r: Vec<
    (String, String),
>)
    ensures
        r.deep_view() == composed_env(env.deep_view(), vendor_home.deep_view()),
{
    match vendor_home {
        Some(p) => {
            let mut out = remove_key(env, "MODULAR_HOME");
            let ghost old_out = out.deep_view();
            out.push((String::from_str("MODULAR_HOME"), p.clone()));
            proof {
                assert(out.deep_view() =~~= old_out.push(("MODULAR_HOME"@, p@)));
            }
            out
        },
        None => clone_pairs(env),
    }
}

} // verus!
