use vstd::prelude::*;
use vstd::string::*;

verus! {

/// True exactly when the two slices hold the same characters.
pub fn str_eq(a: &str, b: &str) -> (r: bool)
    ensures
        r == (a@ == b@),
{
    let sa = String::from_str(a);
    let sb = String::from_str(b);
    sa == sb
}

/// Concatenation of two slices into a fresh string.
pub fn concat2(a: &str, b: &str) -> (r: String)
    ensures
        r@ == a@ + b@,
{
    let mut s = String::from_str(a);
    s.append(b);
    s
}

/// The maximal suffix of `s` that contains no `/`: the final path segment,
/// or the whole string when no separator occurs.
pub open spec fn last_segment(s: Seq<char>) -> Seq<char>
    decreases s.len(),
{
    if s.len() == 0 {
        s
    } else if s.last() == '/' {
        Seq::<char>::empty()
    } else {
        last_segment(s.drop_last()).push(s.last())
    }
}

/// If no separator occurs at or after position `i`, and `i` is either the
/// start of the string or just after a separator, the final segment is the
/// suffix that starts at `i`.
pub proof fn lemma_last_segment_at(s: Seq<char>, i: int)
    requires
        0 <= i <= s.len(),
        forall|j: int| i <= j < s.len() ==> s[j] != '/',
        i == 0 || s[i - 1] == '/',
    ensures
        last_segment(s) == s.subrange(i, s.len() as int),
    decreases s.len(),
{
    if i == s.len() {
        if s.len() == 0 {
            assert(s.subrange(0, 0) =~= s);
        } else {
            assert(s.last() == '/');
            assert(s.subrange(i, s.len() as int) =~= Seq::<char>::empty());
        }
    } else {
        let t = s.drop_last();
        assert(s.last() != '/');
        assert(forall|j: int| i <= j < t.len() ==> t[j] != '/');
        lemma_last_segment_at(t, i);
        assert(t.subrange(i, t.len() as int).push(s.last()) =~= s.subrange(i, s.len() as int));
    }
}

/// The final path segment of `s`, as a fresh string.
pub fn last_segment_of(s: &str) -> (r: String)
    ensures
        r@ == last_segment(s@),
{
    let n = s.unicode_len();
    let mut idx: usize = 0;
    let mut i: usize = 0;
    while i < n
        invariant
            0 <= idx <= i <= n,
            n == s@.len(),
            idx == 0 || s@[idx - 1] == '/',
            forall|j: int| idx <= j < i ==> s@[j] != '/',
        decreases n - i,
    {
        if s.get_char(i) == '/' {
            idx = i + 1;
        }
        i = i + 1;
    }
    proof {
        lemma_last_segment_at(s@, idx as int);
    }
    let seg = s.substring_char(idx, n);
    String::from_str(seg)
}

/// The parts joined by the separator: empty for no parts, and one separator
/// between each neighbouring pair otherwise.
pub open spec fn join_with(parts: Seq<Seq<char>>, sep: Seq<char>) -> Seq<char>
    decreases parts.len(),
{
    if parts.len() == 0 {
        Seq::<char>::empty()
    } else if parts.len() == 1 {
        parts[0]
    } else {
        join_with(parts.drop_last(), sep) + sep + parts.last()
    }
}

/// Joins the parts with the separator.
pub fn join_strings(parts: &Vec<String>, sep: &str) -> (r: String)
    ensures
        r@ == join_with(parts.deep_view(), sep@),
{
    let ghost dv = parts.deep_view();
    let mut out = String::new();
    let mut i: usize = 0;
    while i < parts.len()
        invariant
            0 <= i <= parts.len(),
            dv == parts.deep_view(),
            dv.len() == parts.len(),
            out@ == join_with(dv.take(i as int), sep@),
        decreases parts.len() - i,
    {
        if i > 0 {
            out.append(sep);
        }
        out.append(parts[i].as_str());
        proof {
            let pre = dv.take(i as int);
            let now = dv.take(i + 1 as int);
            assert(now.drop_last() =~= pre);
            assert(now.last() == dv[i as int]);
            if i == 0 {
                assert(join_with(now, sep@) == dv[0]);
            }
        }
        i = i + 1;
    }
    proof {
        assert(dv.take(parts.len() as int) =~= dv);
    }
    out
}

/// The segments of `s` between `:` separators, in order; the empty string
/// splits into one empty segment.
pub open spec fn split_colon(s: Seq<char>) -> Seq<Seq<char>>
    decreases s.len(),
{
    if s.len() == 0 {
        seq![Seq::<char>::empty()]
    } else if s[0] == ':' {
        seq![Seq::<char>::empty()] + split_colon(s.drop_first())
    } else {
        let rest = split_colon(s.drop_first());
        seq![seq![s[0]] + rest[0]] + rest.drop_first()
    }
}

/// A split always yields at least one segment.
pub proof fn lemma_split_colon_len(s: Seq<char>)
    ensures
        split_colon(s).len() >= 1,
    decreases s.len(),
{
    if s.len() == 0 {
    } else {
        lemma_split_colon_len(s.drop_first());
    }
}

/// The first segment, extended at the front by `p`.
pub open spec fn prepend_first(p: Seq<char>, segs: Seq<Seq<char>>) -> Seq<Seq<char>>
    recommends
        segs.len() >= 1,
{
    seq![p + segs[0]] + segs.drop_first()
}

/// Splitting a suffix whose first stretch up to `j` holds no separator is
/// splitting from `j`, with that stretch glued onto the first segment.
pub proof fn lemma_split_colon_skip(s: Seq<char>, i: int, j: int)
    requires
        0 <= i <= j <= s.len(),
        forall|k: int| i <= k < j ==> s[k] != ':',
    ensures
        split_colon(s.subrange(i, s.len() as int)) == prepend_first(
            s.subrange(i, j),
            split_colon(s.subrange(j, s.len() as int)),
        ),
    decreases j - i,
{
    let n = s.len() as int;
    if i == j {
        let x = split_colon(s.subrange(j, n));
        lemma_split_colon_len(s.subrange(j, n));
        assert(s.subrange(i, j) =~= Seq::<char>::empty());
        assert(Seq::<char>::empty() + x[0] =~= x[0]);
        assert(prepend_first(Seq::<char>::empty(), x) =~~= x);
    } else {
        let sub = s.subrange(i, n);
        assert(sub[0] == s[i]);
        assert(s[i] != ':');
        assert(sub.drop_first() =~= s.subrange(i + 1, n));
        lemma_split_colon_skip(s, i + 1, j);
        let rest = split_colon(s.subrange(i + 1, n));
        let tail = split_colon(s.subrange(j, n));
        lemma_split_colon_len(s.subrange(j, n));
        assert(rest == prepend_first(s.subrange(i + 1, j), tail));
        assert(rest[0] == s.subrange(i + 1, j) + tail[0]);
        assert(rest.drop_first() =~~= tail.drop_first());
        assert(seq![s[i]] + s.subrange(i + 1, j) + tail[0] =~= s.subrange(i, j) + tail[0]);
        assert(split_colon(sub) == seq![seq![sub[0]] + rest[0]] + rest.drop_first());
        assert(seq![sub[0]] + rest[0] =~= s.subrange(i, j) + tail[0]);
        assert(split_colon(sub) =~~= prepend_first(s.subrange(i, j), tail));
    }
}

/// Splitting at a separator yields one empty segment and the split of what
/// follows it.
pub proof fn lemma_split_colon_sep(s: Seq<char>, j: int)
    requires
        0 <= j < s.len(),
        s[j] == ':',
    ensures
        split_colon(s.subrange(j, s.len() as int)) == seq![Seq::<char>::empty()] + split_colon(
            s.subrange(j + 1, s.len() as int),
        ),
{
    let n = s.len() as int;
    let sub = s.subrange(j, n);
    assert(sub[0] == ':');
    assert(sub.drop_first() =~= s.subrange(j + 1, n));
}

/// Splits `s` at every `:` into its segments, in order.
pub fn split_colon_exec(s: &str) -> (r: Vec<String>)
    ensures
        r.deep_view() == split_colon(s@),
{
    let n = s.unicode_len();
    let mut out: Vec<String> = Vec::new();
    let mut start: usize = 0;
    let mut j: usize = 0;
    proof {
        assert(s@.subrange(0, n as int) =~= s@);
        assert(out.deep_view() =~~= Seq::<Seq<char>>::empty());
        assert(out.deep_view() + split_colon(s@) =~~= split_colon(s@));
    }
    while j < n
        invariant
            0 <= start <= j <= n,
            n == s@.len(),
            forall|k: int| start <= k < j ==> s@[k] != ':',
            split_colon(s@) =~~= out.deep_view() + split_colon(
                s@.subrange(start as int, n as int),
            ),
        decreases n - j,
    {
        if s.get_char(j) == ':' {
            let seg = s.substring_char(start, j);
            proof {
                lemma_split_colon_skip(s@, start as int, j as int);
                lemma_split_colon_sep(s@, j as int);
                let tail = split_colon(s@.subrange(j as int, n as int));
                let tail2 = split_colon(s@.subrange(j + 1 as int, n as int));
                lemma_split_colon_len(s@.subrange(j + 1 as int, n as int));
                assert(tail == seq![Seq::<char>::empty()] + tail2);
                assert(tail[0] =~= Seq::<char>::empty());
                assert(tail.drop_first() =~~= tail2);
                assert(s@.subrange(start as int, j as int) + tail[0] =~= s@.subrange(
                    start as int,
                    j as int,
                ));
                assert(prepend_first(s@.subrange(start as int, j as int), tail) =~~= seq![
                    s@.subrange(start as int, j as int),
                ] + tail2);
            }
            let ghost old_out = out.deep_view();
            out.push(String::from_str(seg));
            proof {
                assert(out.deep_view() =~~= old_out + seq![s@.subrange(start as int, j as int)]);
                assert(out.deep_view() + split_colon(s@.subrange(j + 1 as int, n as int)) =~~= (
                old_out + split_colon(s@.subrange(start as int, n as int))));
            }
            start = j + 1;
        }
        j = j + 1;
    }
    let seg = s.substring_char(start, n);
    proof {
        lemma_split_colon_skip(s@, start as int, n as int);
        let tail = split_colon(s@.subrange(n as int, n as int));
        assert(s@.subrange(n as int, n as int) =~= Seq::<char>::empty());
        assert(tail =~~= seq![Seq::<char>::empty()]);
        assert(tail.drop_first() =~~= Seq::<Seq<char>>::empty());
        assert(s@.subrange(start as int, n as int) + tail[0] =~= s@.subrange(
            start as int,
            n as int,
        ));
        assert(split_colon(s@.subrange(start as int, n as int)) =~~= seq![
            s@.subrange(start as int, n as int),
        ]);
    }
    let ghost old_out = out.deep_view();
    out.push(String::from_str(seg));
    proof {
        assert(out.deep_view() =~~= old_out + seq![s@.subrange(start as int, n as int)]);
        assert(out.deep_view() =~~= split_colon(s@));
    }
    out
}

/// `sub` occurs contiguously somewhere in `s`.
pub open spec fn has_substring(s: Seq<char>, sub: Seq<char>) -> bool {
    exists|i: int|
        0 <= i && i + sub.len() <= s.len() && #[trigger] s.subrange(i, i + sub.len() as int)
            == sub
}

/// An occurrence survives extending the string on the right.
pub proof fn lemma_has_substring_extend_right(a: Seq<char>, b: Seq<char>, sub: Seq<char>)
    requires
        has_substring(a, sub),
    ensures
        has_substring(a + b, sub),
{
    let i = choose|i: int|
        0 <= i && i + sub.len() <= a.len() && #[trigger] a.subrange(i, i + sub.len() as int)
            == sub;
    assert((a + b).subrange(i, i + sub.len() as int) =~= sub);
}

/// An occurrence survives extending the string on the left.
pub proof fn lemma_has_substring_extend_left(a: Seq<char>, b: Seq<char>, sub: Seq<char>)
    requires
        has_substring(b, sub),
    ensures
        has_substring(a + b, sub),
{
    let i = choose|i: int|
        0 <= i && i + sub.len() <= b.len() && #[trigger] b.subrange(i, i + sub.len() as int)
            == sub;
    assert((a + b).subrange(a.len() + i, a.len() + i + sub.len() as int) =~= sub);
}

/// Each part occurs in the joined string right after a separator, once one
/// more separator is glued onto the front of the join.
#[verifier::rlimit(50)]
pub proof fn lemma_join_each(parts: Seq<Seq<char>>, sep: Seq<char>, k: int)
    requires
        0 <= k < parts.len(),
    ensures
        has_substring(sep + join_with(parts, sep), sep + parts[k]),
    decreases parts.len(),
{
    if parts.len() == 1 {
        let w = sep + parts[0];
        assert(w.subrange(0, 0 + w.len() as int) =~= w);
    } else {
        let front = join_with(parts.drop_last(), sep);
        assert(join_with(parts, sep) == front + sep + parts.last());
        if k == parts.len() - 1 {
            let pre = sep + front;
            let mid = sep + parts.last();
            lemma_has_substring_middle(pre, mid, Seq::<char>::empty());
            assert(pre + mid + Seq::<char>::empty() =~= pre + mid);
            assert(pre + mid =~= sep + join_with(parts, sep));
        } else {
            lemma_join_each(parts.drop_last(), sep, k);
            assert(parts.drop_last()[k] == parts[k]);
            let a = sep + front;
            let b = sep + parts.last();
            lemma_has_substring_extend_right(a, b, sep + parts[k]);
            assert(a + b =~= sep + join_with(parts, sep));
        }
    }
}

/// What stands between a prefix and a suffix occurs as a substring.
pub proof fn lemma_has_substring_middle(pre: Seq<char>, mid: Seq<char>, post: Seq<char>)
    ensures
        has_substring(pre + mid + post, mid),
{
    assert((pre + mid + post).subrange(
        pre.len() as int,
        pre.len() + mid.len() as int,
    ) =~= mid);
}

} // verus!
