use vstd::prelude::*;
use crate::strutil::str_eq;

verus! {

/// A read-only snapshot of one workspace: the shell environment, what is
/// known of the filesystem, and the results of searching the PATH for
/// executable names. The resolver consults nothing else.
pub struct WorkspaceContext {
    /// Shell environment key/value pairs, in order; duplicate keys are
    /// possible, and the first occurrence of a key decides its value.
    pub shell_env: Vec<(String, String)>,
    /// The process `HOME` directory, where one is set.
    pub home: Option<String>,
    /// The process current working directory, where it could be read.
    pub cwd: Option<String>,
    /// The probed paths that exist on disk.
    pub existing: Vec<String>,
    /// The workspace-relative files whose contents could be read.
    pub readable: Vec<String>,
    /// PATH lookup results: executable name to absolute path; the first
    /// entry per name decides.
    pub path_lookups: Vec<(String, String)>,
}

/// The value under `key` at its first occurrence in the ordered pair list.
pub open spec fn first_val(pairs: Seq<(Seq<char>, Seq<char>)>, key: Seq<char>) -> Option<
    Seq<char>,
>
    decreases pairs.len(),
{
    if pairs.len() == 0 {
        None
    } else if pairs[0].0 == key {
        Some(pairs[0].1)
    } else {
        first_val(pairs.drop_first(), key)
    }
}

/// A found value comes from some entry under that key.
pub proof fn lemma_first_val_found(pairs: Seq<(Seq<char>, Seq<char>)>, key: Seq<char>)
    requires
        first_val(pairs, key) is Some,
    ensures
        exists|i: int|
            0 <= i < pairs.len() && (#[trigger] pairs[i]).0 == key && pairs[i].1 == first_val(
                pairs,
                key,
            )->0,
    decreases pairs.len(),
{
    if pairs.len() == 0 {
    } else if pairs[0].0 == key {
        assert(pairs[0].0 == key && pairs[0].1 == first_val(pairs, key)->0);
    } else {
        lemma_first_val_found(pairs.drop_first(), key);
        let i = choose|i: int|
            0 <= i < pairs.drop_first().len() && (#[trigger] pairs.drop_first()[i]).0 == key
                && pairs.drop_first()[i].1 == first_val(pairs.drop_first(), key)->0;
        assert(pairs[i + 1] == pairs.drop_first()[i]);
    }
}

impl WorkspaceContext {
    /// The shell environment, as character sequences.
    pub open spec fn env(self) -> Seq<(Seq<char>, Seq<char>)> {
        self.shell_env.deep_view()
    }

    /// The value of the shell variable `key`, where one is set.
    pub open spec fn env_val(self, key: Seq<char>) -> Option<Seq<char>> {
        first_val(self.env(), key)
    }

    /// Whether the path `p` exists on disk.
    pub open spec fn path_exists(self, p: Seq<char>) -> bool {
        self.existing.deep_view().contains(p)
    }

    /// Whether the workspace-relative file `p` can be read.
    pub open spec fn file_readable(self, p: Seq<char>) -> bool {
        self.readable.deep_view().contains(p)
    }

    /// The PATH lookup result for the executable `name`, where one exists.
    pub open spec fn which(self, name: Seq<char>) -> Option<Seq<char>> {
        first_val(self.path_lookups.deep_view(), name)
    }

    /// A sound snapshot: every PATH lookup result is an absolute path to an
    /// executable that exists on disk.
    pub open spec fn wf(self) -> bool {
        forall|i: int|
            0 <= i < self.path_lookups.deep_view().len() ==> {
                let p = (#[trigger] self.path_lookups.deep_view()[i]).1;
                p.len() > 0 && p[0] == '/' && self.path_exists(p)
            }
    }

    /// A found PATH lookup result of a sound snapshot is absolute and exists.
    pub proof fn lemma_which_wf(self, name: Seq<char>)
        requires
            self.wf(),
            self.which(name) is Some,
        ensures
            self.which(name)->0.len() > 0,
            self.which(name)->0[0] == '/',
            self.path_exists(self.which(name)->0),
    {
        lemma_first_val_found(self.path_lookups.deep_view(), name);
    }
}

/// First value under `key` in the ordered pair list, where one occurs.
pub fn lookup_first(pairs: &Vec<(String, String)>, key: &str) -> (r: Option<String>)
    ensures
        r.deep_view() == first_val(pairs.deep_view(), key@),
{
    let ghost dv = pairs.deep_view();
    let mut i: usize = 0;
    proof {
        assert(dv.subrange(0, dv.len() as int) =~= dv);
    }
    while i < pairs.len()
        invariant
            0 <= i <= pairs.len(),
            dv == pairs.deep_view(),
            dv.len() == pairs.len(),
            first_val(dv, key@) == first_val(dv.subrange(i as int, dv.len() as int), key@),
        decreases pairs.len() - i,
    {
        proof {
            let sub = dv.subrange(i as int, dv.len() as int);
            assert(sub[0] == dv[i as int]);
            assert(sub.drop_first() =~= dv.subrange(i + 1 as int, dv.len() as int));
        }
        if str_eq(pairs[i].0.as_str(), key) {
            return Some(pairs[i].1.clone());
        }
        i = i + 1;
    }
    proof {
        assert(dv.subrange(dv.len() as int, dv.len() as int) =~= Seq::<
            (Seq<char>, Seq<char>),
        >::empty());
    }
    None
}

/// Whether `p` occurs in the string list.
pub fn list_contains(list: &Vec<String>, p: &str) -> (r: bool)
    ensures
        r == list.deep_view().contains(p@),
{
    let ghost dv = list.deep_view();
    let mut i: usize = 0;
    while i < list.len()
        invariant
            0 <= i <= list.len(),
            dv == list.deep_view(),
            dv.len() == list.len(),
            forall|j: int| 0 <= j < i ==> dv[j] != p@,
        decreases list.len() - i,
    {
        if str_eq(list[i].as_str(), p) {
            assert(dv[i as int] == p@);
            return true;
        }
        i = i + 1;
    }
    assert(forall|j: int| 0 <= j < dv.len() ==> dv[j] != p@);
    assert(!dv.contains(p@));
    false
}

impl WorkspaceContext {
    /// The value of the shell variable `key`, where one is set.
    pub fn get_env(&self, key: &str) -> (r: Option<String>)
        ensures
            r.deep_view() == self.env_val(key@),
    {
        lookup_first(&self.shell_env, key)
    }

    /// Whether the path `p` exists on disk.
    pub fn on_disk(&self, p: &str) -> (r: bool)
        ensures
            r == self.path_exists(p@),
    {
        list_contains(&self.existing, p)
    }

    /// Whether the workspace-relative file `p` can be read.
    pub fn readable_file(&self, p: &str) -> (r: bool)
        ensures
            r == self.file_readable(p@),
    {
        list_contains(&self.readable, p)
    }

    /// The PATH lookup result for the executable `name`, where one exists.
    pub fn which_lookup(&self, name: &str) -> (r: Option<String>)
        ensures
            r.deep_view() == self.which(name@),
    {
        lookup_first(&self.path_lookups, name)
    }
}

} // verus!
