//! Splitting and joining of text, shared by the path and table parsers.
use vstd::prelude::*;
use vstd::string::*;

verus! {

/// The contents of a list of strings.
pub open spec fn texts(v: Seq<String>) -> Seq<Seq<char>> {
    v.map_values(|s: String| s@)
}

/// The contents of a list of borrowed strings.
pub open spec fn words(v: Seq<&str>) -> Seq<Seq<char>> {
    v.map_values(|s: &str| s@)
}

/// The completed runs of non-separator characters of `s`, and the run that is still open at its
/// end.
pub open spec fn scan(s: Seq<char>, sep: spec_fn(char) -> bool) -> (Seq<Seq<char>>, Seq<char>)
    decreases s.len(),
{
    if s.len() == 0 {
        (Seq::empty(), Seq::empty())
    } else {
        let (done, open) = scan(s.drop_last(), sep);
        if !sep(s.last()) {
            (done, open.push(s.last()))
        } else if open.len() == 0 {
            (done, open)
        } else {
            (done.push(open), Seq::empty())
        }
    }
}

/// The maximal runs of non-separator characters of `s`, in order.
pub open spec fn runs(s: Seq<char>, sep: spec_fn(char) -> bool) -> Seq<Seq<char>> {
    let (done, open) = scan(s, sep);
    if open.len() == 0 {
        done
    } else {
        done.push(open)
    }
}

/// The characters that separate path components.
pub open spec fn is_slash() -> spec_fn(char) -> bool {
    |c: char| c == '/'
}

/// The non-empty components of a path.
pub open spec fn path_components(s: Seq<char>) -> Seq<Seq<char>> {
    runs(s, is_slash())
}

/// Whether no character of `c` is a slash.
pub open spec fn is_slash_free(c: Seq<char>) -> bool {
    forall|i: int| 0 <= i < c.len() ==> c[i] != '/'
}

/// A component that can stand in a canonical path.
pub open spec fn is_plain_component(c: Seq<char>) -> bool {
    &&& c.len() > 0
    &&& is_slash_free(c)
    &&& c != seq!['.']
    &&& c != seq!['.', '.']
}

/// Whether every component can stand in a canonical path.
pub open spec fn are_plain_components(p: Seq<Seq<char>>) -> bool {
    forall|i: int| 0 <= i < p.len() ==> is_plain_component(#[trigger] p[i])
}

/// Whether a string can be a component of a path.
pub open spec fn is_component(c: Seq<char>) -> bool {
    c.len() > 0 && is_slash_free(c)
}

/// Whether every string of a list can be a component of a path.
pub open spec fn are_components(p: Seq<Seq<char>>) -> bool {
    forall|k: int| 0 <= k < p.len() ==> is_component(#[trigger] p[k])
}

/// Each component with a slash before it.
pub open spec fn join_components(p: Seq<Seq<char>>) -> Seq<char>
    decreases p.len(),
{
    if p.len() == 0 {
        Seq::empty()
    } else {
        join_components(p.drop_last()) + seq!['/'] + p.last()
    }
}

/// The canonical absolute path with the components `p`.
pub open spec fn render_path(p: Seq<Seq<char>>) -> Seq<char> {
    if p.len() == 0 {
        seq!['/']
    } else {
        join_components(p)
    }
}

proof fn lemma_scan_extend(s: Seq<char>, t: Seq<char>, sep: spec_fn(char) -> bool)
    requires
        forall|i: int| 0 <= i < t.len() ==> !sep(t[i]),
    ensures
        scan(s + t, sep) == (scan(s, sep).0, scan(s, sep).1 + t),
    decreases t.len(),
{
    if t.len() == 0 {
        assert(s + t =~= s);
        assert(scan(s, sep).1 + t =~= scan(s, sep).1);
    } else {
        lemma_scan_extend(s, t.drop_last(), sep);
        assert((s + t).drop_last() =~= s + t.drop_last());
        assert((scan(s, sep).1 + t.drop_last()).push(t.last()) =~= scan(s, sep).1 + t);
    }
}

/// What follows the last separator is the last run, and the runs before it are those of what comes
/// before the separator. Without a separator there is one run. Nothing follows from a separator at
/// the end.
pub proof fn lemma_last_run(s: Seq<char>, c: char, t: Seq<char>, sep: spec_fn(char) -> bool)
    requires
        sep(c),
        t.len() > 0,
        forall|i: int| 0 <= i < t.len() ==> !sep(#[trigger] t[i]),
    ensures
        runs(s.push(c) + t, sep) == runs(s, sep).push(t),
        runs(t, sep) == seq![t],
        runs(s.push(c), sep) == runs(s, sep),
        runs(Seq::empty(), sep).len() == 0,
{
    let empty = Seq::<char>::empty();
    lemma_scan_extend(s.push(c), t, sep);
    assert(s.push(c).drop_last() =~= s);
    assert(empty + t =~= t);
    lemma_scan_extend(empty, t, sep);
    assert(scan(empty, sep) == (Seq::<Seq<char>>::empty(), empty));
    assert(runs(t, sep) =~= seq![t]);
    if scan(s, sep).1.len() == 0 {
        assert(scan(s, sep).1 =~= empty);
    }
}

proof fn lemma_scan_join(p: Seq<Seq<char>>)
    requires
        p.len() > 0,
        are_components(p),
    ensures
        scan(join_components(p), is_slash()) == (p.drop_last(), p.last()),
    decreases p.len(),
{
    let head = p.drop_last();
    let before = join_components(head);
    let slashed = before + seq!['/'];
    assert(slashed.drop_last() =~= before);
    if head.len() == 0 {
        assert(scan(before, is_slash()) == (Seq::<Seq<char>>::empty(), Seq::<char>::empty()));
        assert(scan(slashed, is_slash()).0 =~= head);
        assert(scan(slashed, is_slash()).1 =~= Seq::<char>::empty());
    } else {
        assert(are_components(head));
        lemma_scan_join(head);
        assert(is_component(p[head.len() - 1]));
        assert(head.drop_last().push(head.last()) =~= head);
        assert(scan(slashed, is_slash()) == (head, Seq::<char>::empty()));
    }
    assert(is_component(p[p.len() - 1]));
    lemma_scan_extend(slashed, p.last(), is_slash());
    assert(Seq::<char>::empty() + p.last() =~= p.last());
}

/// Splitting joined components gives them back.
pub proof fn lemma_components_of_joined(p: Seq<Seq<char>>)
    requires
        are_components(p),
    ensures
        path_components(join_components(p)) == p,
{
    if p.len() == 0 {
        assert(path_components(join_components(p)) =~= p);
    } else {
        lemma_scan_join(p);
        assert(is_component(p[p.len() - 1]));
        assert(p.drop_last().push(p.last()) =~= p);
    }
}

proof fn lemma_scan_is_slash_free(s: Seq<char>)
    ensures
        forall|k: int|
            0 <= k < scan(s, is_slash()).0.len() ==> is_slash_free(
                #[trigger] scan(s, is_slash()).0[k],
            ) && scan(s, is_slash()).0[k].len() > 0,
        is_slash_free(scan(s, is_slash()).1),
    decreases s.len(),
{
    if s.len() > 0 {
        lemma_scan_is_slash_free(s.drop_last());
        let (done, open) = scan(s.drop_last(), is_slash());
        let after = scan(s, is_slash()).0;
        assert forall|k: int| 0 <= k < after.len() implies is_slash_free(#[trigger] after[k])
            && after[k].len() > 0 by {
            if k < done.len() {
                assert(after[k] == done[k]);
            }
        }
    }
}

/// No component of a path is empty or holds a slash.
pub proof fn lemma_components_are_slash_free(s: Seq<char>)
    ensures
        forall|k: int|
            0 <= k < path_components(s).len() ==> is_slash_free(#[trigger] path_components(s)[k])
                && path_components(s)[k].len() > 0,
{
    lemma_scan_is_slash_free(s);
    let (done, open) = scan(s, is_slash());
    assert forall|k: int| 0 <= k < path_components(s).len() implies is_slash_free(
        #[trigger] path_components(s)[k],
    ) && path_components(s)[k].len() > 0 by {
        if k < done.len() {
            assert(path_components(s)[k] == done[k]);
        }
    }
}

/// Splitting a canonical path gives back the components that it was made of.
pub proof fn lemma_components_of_rendered(p: Seq<Seq<char>>)
    requires
        are_plain_components(p),
    ensures
        path_components(render_path(p)) == p,
{
    if p.len() == 0 {
        let s = seq!['/'];
        assert(s.drop_last() =~= Seq::<char>::empty());
        assert(scan(s.drop_last(), is_slash()) == (
            Seq::<Seq<char>>::empty(),
            Seq::<char>::empty(),
        ));
        assert(path_components(s) =~= p);
    } else {
        assert forall|k: int| 0 <= k < p.len() implies is_component(#[trigger] p[k]) by {
            assert(is_plain_component(p[k]));
        }
        lemma_components_of_joined(p);
    }
}

/// A canonical path has one list of components only.
pub proof fn lemma_render_path_injective(p: Seq<Seq<char>>, q: Seq<Seq<char>>)
    requires
        are_plain_components(p),
        are_plain_components(q),
        render_path(p) == render_path(q),
    ensures
        p == q,
{
    lemma_components_of_rendered(p);
    lemma_components_of_rendered(q);
}

/// Whether two strings have the same contents.
pub fn same_text(a: &str, b: &str) -> (r: bool)
    ensures
        r == (a@ == b@),
{
    let x = a.to_owned();
    let y = b.to_owned();
    x == y
}

/// The characters of `s`.
pub fn chars_of(s: &str) -> (r: Vec<char>)
    ensures
        r@ == s@,
{
    let mut out: Vec<char> = Vec::new();
    for c in it: s.chars()
        invariant
            out@ == it.seq().take(it.index() as int),
            it.seq() == s@,
    {
        out.push(c);
    }
    out
}

/// The maximal runs of characters of `s` for which `sep` is false, in order.
pub(crate) fn split_runs<F: Fn(char) -> bool>(s: &str, sep: F, Ghost(spec_sep): Ghost<spec_fn(char) -> bool>) -> (r: Vec<String>)
    requires
        forall|c: char| call_requires(sep, (c,)),
        forall|c: char, b: bool| call_ensures(sep, (c,), b) ==> b == spec_sep(c),
    ensures
        texts(r@) == runs(s@, spec_sep),
{
    let cs = chars_of(s);
    let mut out: Vec<String> = Vec::new();
    let mut start: usize = 0;
    let mut i: usize = 0;
    assert(texts(out@) =~= Seq::empty());
    assert(s@.subrange(0, 0) =~= Seq::empty());
    assert(s@.take(0) =~= Seq::empty());
    while i < cs.len()
        invariant
            cs@ == s@,
            start <= i <= cs.len(),
            scan(s@.take(i as int), spec_sep) == (
                texts(out@),
                s@.subrange(start as int, i as int),
            ),
            forall|c: char| call_requires(sep, (c,)),
            forall|c: char, b: bool| call_ensures(sep, (c,), b) ==> b == spec_sep(c),
        decreases cs.len() - i,
    {
        let c = cs[i];
        assert(s@.take(i + 1).drop_last() =~= s@.take(i as int));
        assert(s@.take(i + 1).last() == c);
        if sep(c) {
            if start < i {
                let piece = s.substring_char(start, i).to_owned();
                let ghost before = out@;
                out.push(piece);
                assert(texts(out@) =~= texts(before).push(piece@));
            }
            i = i + 1;
            start = i;
            assert(s@.subrange(start as int, i as int) =~= Seq::empty());
        } else {
            assert(s@.subrange(start as int, i as int).push(c) =~= s@.subrange(
                start as int,
                i + 1,
            ));
            i = i + 1;
        }
    }
    assert(s@.take(i as int) =~= s@);
    if start < i {
        let piece = s.substring_char(start, i).to_owned();
        let ghost before = out@;
        out.push(piece);
        assert(texts(out@) =~= texts(before).push(piece@));
    }
    out
}

/// The non-empty components of a path.
pub fn split_path(s: &str) -> (r: Vec<String>)
    ensures
        texts(r@) == path_components(s@),
{
    let is_sep = |c: char| -> (b: bool)
        ensures
            b == (c == '/'),
        { c == '/' };
    split_runs(s, is_sep, Ghost(is_slash()))
}

/// Whether two component lists are equal.
pub fn same_path(a: &Vec<String>, b: &Vec<String>) -> (r: bool)
    ensures
        r == (texts(a@) == texts(b@)),
{
    if a.len() != b.len() {
        assert(texts(a@).len() != texts(b@).len());
        return false;
    }
    starts_with(a, b)
}

/// Whether `path` begins with the components of `prefix`.
pub fn starts_with(path: &Vec<String>, prefix: &Vec<String>) -> (r: bool)
    requires
        prefix.len() <= path.len(),
    ensures
        r == (texts(path@).take(prefix.len() as int) == texts(prefix@)),
        path.len() == prefix.len() ==> r == (texts(path@) == texts(prefix@)),
{
    assert(path.len() == prefix.len() ==> texts(path@).take(prefix.len() as int) =~= texts(path@));
    let mut i: usize = 0;
    while i < prefix.len()
        invariant
            i <= prefix.len() <= path.len(),
            forall|k: int| 0 <= k < i ==> texts(path@)[k] == texts(prefix@)[k],
        decreases prefix.len() - i,
    {
        if path[i] != prefix[i] {
            assert(texts(path@).take(prefix.len() as int)[i as int] != texts(prefix@)[i as int]);
            return false;
        }
        i = i + 1;
    }
    assert(texts(path@).take(prefix.len() as int) =~= texts(prefix@));
    true
}

/// A copy of a component list.
pub fn copy_path(path: &Vec<String>) -> (r: Vec<String>)
    ensures
        texts(r@) == texts(path@),
{
    copy_prefix(path, path.len())
}

/// A copy of the first `len` components.
pub fn copy_prefix(path: &Vec<String>, len: usize) -> (r: Vec<String>)
    requires
        len <= path.len(),
    ensures
        texts(r@) == texts(path@).take(len as int),
{
    let mut out: Vec<String> = Vec::new();
    let mut i: usize = 0;
    while i < len
        invariant
            i <= len <= path.len(),
            texts(out@) == texts(path@).take(i as int),
        decreases len - i,
    {
        let ghost before = out@;
        out.push(path[i].clone());
        assert(texts(out@) =~= texts(before).push(path@[i as int]@));
        assert(texts(path@).take(i + 1) =~= texts(path@).take(i as int).push(texts(path@)[i as int]));
        i = i + 1;
    }
    out
}

} // verus!
