//! File paths as text: components, names, parents and prefixes.
//!
//! A path is a sequence of characters. Its components are the runs between slashes; repeated
//! slashes and `.` components count for nothing, except for a `.` that begins the path. Two
//! paths are the same when both or neither are absolute and their components agree.

use crate::text::{chars_of, string_of, sub_chars};
use vstd::prelude::*;

verus! {

/// Where the run without slashes that holds position `i` ends.
pub open spec fn run_end(s: Seq<char>, i: int) -> int
    decreases s.len() - i,
{
    if 0 <= i < s.len() && s[i] != '/' {
        run_end(s, i + 1)
    } else {
        i
    }
}

/// Whether the run from `a` to `b` is a component. A lone `.` is one only at the very start.
pub open spec fn is_component(s: Seq<char>, a: int, b: int) -> bool {
    !(b == a + 1 && s[a] == '.' && a > 0)
}

pub(crate) proof fn lemma_run_end(s: Seq<char>, i: int)
    requires
        0 <= i <= s.len(),
    ensures
        i <= run_end(s, i) <= s.len(),
        forall|k: int| i <= k < run_end(s, i) ==> #[trigger] s[k] != '/',
        run_end(s, i) < s.len() ==> s[run_end(s, i)] == '/',
        i < s.len() && s[i] != '/' ==> i < run_end(s, i),
    decreases s.len() - i,
{
    if i < s.len() && s[i] != '/' {
        lemma_run_end(s, i + 1);
    }
}

/// The places of the components of `s` from position `i` on, as start and end.
pub open spec fn spans_from(s: Seq<char>, i: int) -> Seq<(int, int)>
    decreases s.len() - i,
{
    if i < 0 || i >= s.len() {
        Seq::empty()
    } else if s[i] == '/' {
        spans_from(s, i + 1)
    } else {
        let e = run_end(s, i);
        if e <= i || e > s.len() {
            Seq::empty()
        } else if is_component(s, i, e) {
            seq![(i, e)] + spans_from(s, e)
        } else {
            spans_from(s, e)
        }
    }
}

/// The places of the components of `s`.
pub open spec fn spans(s: Seq<char>) -> Seq<(int, int)> {
    spans_from(s, 0)
}

/// The components of `s`.
pub open spec fn components(s: Seq<char>) -> Seq<Seq<char>> {
    spans(s).map_values(|p: (int, int)| s.subrange(p.0, p.1))
}

/// Whether `s` starts at the root.
pub open spec fn is_absolute(s: Seq<char>) -> bool {
    s.len() > 0 && s[0] == '/'
}

/// What a path is, apart from how it is spelled.
#[verifier::ext_equal]
pub struct PathId {
    pub absolute: bool,
    pub parts: Seq<Seq<char>>,
}

pub open spec fn path_id(s: Seq<char>) -> PathId {
    PathId { absolute: is_absolute(s), parts: components(s) }
}

pub(crate) proof fn lemma_spans(s: Seq<char>, i: int)
    requires
        0 <= i <= s.len(),
    ensures
        forall|k: int|
            0 <= k < spans_from(s, i).len() ==> i <= (#[trigger] spans_from(s, i)[k]).0
                < spans_from(s, i)[k].1 <= s.len(),
        forall|k: int, l: int|
            0 <= k < l < spans_from(s, i).len() ==> (#[trigger] spans_from(s, i)[k]).1 <= (
            #[trigger] spans_from(s, i)[l]).0,
    decreases s.len() - i,
{
    lemma_run_end(s, i);
    if i >= s.len() {
        assert(spans_from(s, i).len() == 0);
    } else if s[i] == '/' {
        lemma_spans(s, i + 1);
        assert(spans_from(s, i) == spans_from(s, i + 1));
    } else {
        let e = run_end(s, i);
        lemma_spans(s, e);
        let rest = spans_from(s, e);
        if is_component(s, i, e) {
            let all = spans_from(s, i);
            assert(all == seq![(i, e)] + rest);
            assert forall|k: int| 0 <= k < all.len() implies i <= (#[trigger] all[k]).0 < all[k].1
                <= s.len() by {
                if k > 0 {
                    assert(all[k] == rest[k - 1]);
                }
            }
            assert forall|k: int, l: int| 0 <= k < l < all.len() implies (#[trigger] all[k]).1 <= (
            #[trigger] all[l]).0 by {
                assert(all[l] == rest[l - 1]);
                if k > 0 {
                    assert(all[k] == rest[k - 1]);
                }
            }
        } else {
            assert(spans_from(s, i) == rest);
        }
    }
}

/// Places as plain integers.
pub open spec fn as_spans(v: Seq<(usize, usize)>) -> Seq<(int, int)> {
    v.map_values(|p: (usize, usize)| (p.0 as int, p.1 as int))
}

/// The places of the components of `s`.
pub fn find_spans(s: &[char]) -> (r: Vec<(usize, usize)>)
    ensures
        as_spans(r@) == spans(s@),
        forall|k: int| 0 <= k < r@.len() ==> (#[trigger] r@[k]).0 < r@[k].1 <= s@.len(),
        forall|k: int, l: int|
            0 <= k < l < r@.len() ==> (#[trigger] r@[k]).1 <= (#[trigger] r@[l]).0,
{
    let mut out: Vec<(usize, usize)> = Vec::new();
    let mut i: usize = 0;
    assert(as_spans(out@) =~= Seq::<(int, int)>::empty());
    assert(spans(s@) =~= as_spans(out@) + spans_from(s@, 0));
    while i < s.len()
        invariant
            i <= s@.len(),
            spans(s@) == as_spans(out@) + spans_from(s@, i as int),
        decreases s@.len() - i,
    {
        if s[i] == '/' {
            i = i + 1;
        } else {
            let start: usize = i;
            proof {
                lemma_run_end(s@, start as int);
            }
            while i < s.len() && s[i] != '/'
                invariant
                    start <= i <= s@.len(),
                    forall|k: int| start <= k < i ==> #[trigger] s@[k] != '/',
                decreases s@.len() - i,
            {
                i = i + 1;
            }
            proof {
                let e = run_end(s@, start as int);
                if e < i {
                    assert(s@[e] == '/');
                }
                if e > i {
                    assert(s@[i as int] != '/');
                }
                assert(e == i);
            }
            if !(i == start + 1 && s[start] == '.' && start > 0) {
                let ghost before = out@;
                out.push((start, i));
                assert(as_spans(out@) =~= as_spans(before).push((start as int, i as int)));
                assert(as_spans(out@) + spans_from(s@, i as int) =~= as_spans(before) + (seq![
                    (start as int, i as int),
                ] + spans_from(s@, i as int)));
            }
        }
    }
    proof {
        assert(spans_from(s@, i as int).len() == 0);
        assert(as_spans(out@) =~= spans(s@));
        lemma_spans(s@, 0);
        let sp = spans(s@);
        assert forall|k: int| 0 <= k < out@.len() implies (#[trigger] out@[k]).0 < out@[k].1
            <= s@.len() by {
            assert(sp[k] == (out@[k].0 as int, out@[k].1 as int));
        }
        assert forall|k: int, l: int| 0 <= k < l < out@.len() implies (#[trigger] out@[k]).1 <= (
        #[trigger] out@[l]).0 by {
            assert(sp[k] == (out@[k].0 as int, out@[k].1 as int));
            assert(sp[l] == (out@[l].0 as int, out@[l].1 as int));
        }
    }
    out
}

fn same_run(a: &[char], p: (usize, usize), b: &[char], q: (usize, usize)) -> (r: bool)
    requires
        p.0 <= p.1 <= a@.len(),
        q.0 <= q.1 <= b@.len(),
    ensures
        r == (a@.subrange(p.0 as int, p.1 as int) == b@.subrange(q.0 as int, q.1 as int)),
{
    let n: usize = p.1 - p.0;
    let ghost x = a@.subrange(p.0 as int, p.1 as int);
    let ghost y = b@.subrange(q.0 as int, q.1 as int);
    assert(x.len() == p.1 - p.0 && y.len() == q.1 - q.0);
    if n != q.1 - q.0 {
        return false;
    }
    for k in 0..n
        invariant
            p.0 + n == p.1 <= a@.len(),
            q.0 + n == q.1 <= b@.len(),
            x == a@.subrange(p.0 as int, p.1 as int),
            y == b@.subrange(q.0 as int, q.1 as int),
            forall|j: int| 0 <= j < k ==> #[trigger] x[j] == y[j],
    {
        if a[p.0 + k] != b[q.0 + k] {
            assert(x[k as int] != y[k as int]);
            return false;
        }
    }
    assert(x =~= y);
    true
}

/// Whether two paths are the same, however they are spelled.
pub fn same_path(a: &str, b: &str) -> (r: bool)
    ensures
        r == (path_id(a@) == path_id(b@)),
{
    let x: Vec<char> = chars_of(a);
    let y: Vec<char> = chars_of(b);
    let abs_x: bool = x.len() > 0 && x[0] == '/';
    let abs_y: bool = y.len() > 0 && y[0] == '/';
    if abs_x != abs_y {
        return false;
    }
    let p: Vec<(usize, usize)> = find_spans(x.as_slice());
    let q: Vec<(usize, usize)> = find_spans(y.as_slice());
    let ghost cx = components(a@);
    let ghost cy = components(b@);
    assert(cx.len() == p@.len() && cy.len() == q@.len()) by {
        assert(as_spans(p@).len() == p@.len());
        assert(as_spans(q@).len() == q@.len());
    }
    if p.len() != q.len() {
        return false;
    }
    for k in 0..p.len()
        invariant
            x@ == a@,
            y@ == b@,
            p@.len() == q@.len(),
            as_spans(p@) == spans(x@),
            as_spans(q@) == spans(y@),
            forall|k: int| 0 <= k < p@.len() ==> (#[trigger] p@[k]).0 < p@[k].1 <= x@.len(),
            forall|k: int| 0 <= k < q@.len() ==> (#[trigger] q@[k]).0 < q@[k].1 <= y@.len(),
            cx == components(a@),
            cy == components(b@),
            cx.len() == p@.len(),
            cy.len() == q@.len(),
            forall|j: int| 0 <= j < k ==> #[trigger] cx[j] == cy[j],
    {
        assert(as_spans(p@)[k as int] == (p@[k as int].0 as int, p@[k as int].1 as int));
        assert(as_spans(q@)[k as int] == (q@[k as int].0 as int, q@[k as int].1 as int));
        if !same_run(x.as_slice(), p[k], y.as_slice(), q[k]) {
            assert(cx[k as int] != cy[k as int]);
            return false;
        }
    }
    assert(cx =~= cy);
    true
}

/// The name that a path ends in; a path that ends in `..`, or has no name, has none.
pub open spec fn spec_file_name(s: Seq<char>) -> Option<Seq<char>> {
    let c = components(s);
    if c.len() == 0 || c.last() == seq!['.'] || c.last() == seq!['.', '.'] {
        None
    } else {
        Some(c.last())
    }
}

/// The path without its last component; the root and the empty path have none.
pub open spec fn spec_parent(s: Seq<char>) -> Option<Seq<char>> {
    let p = spans(s);
    if p.len() == 0 {
        None
    } else if p.len() > 1 {
        Some(s.take(p[p.len() - 2].1))
    } else if is_absolute(s) {
        Some(seq!['/'])
    } else {
        Some(Seq::empty())
    }
}

/// The parent of a path is shorter than the path.
pub proof fn lemma_parent_is_shorter(s: Seq<char>)
    ensures
        spec_parent(s) matches Some(p) ==> p.len() < s.len(),
{
    let p = spans(s);
    lemma_spans(s, 0);
    if p.len() > 1 {
        assert(p[p.len() - 2].1 <= p[p.len() - 1].0);
    } else if p.len() == 1 {
        assert(0 <= p[0].0 < p[0].1 <= s.len());
        if is_absolute(s) {
            lemma_spans(s, 1);
            assert(spans_from(s, 0) == spans_from(s, 1));
            assert(1 <= p[0].0);
        }
    }
}

/// An optional string's characters.
pub open spec fn opt_text(o: Option<String>) -> Option<Seq<char>> {
    match o {
        Some(s) => Some(s@),
        None => None,
    }
}

pub fn file_name(path: &str) -> (r: Option<String>)
    ensures
        opt_text(r) == spec_file_name(path@),
{
    let x: Vec<char> = chars_of(path);
    let p: Vec<(usize, usize)> = find_spans(x.as_slice());
    let ghost c = components(path@);
    assert(as_spans(p@).len() == p@.len());
    if p.len() == 0 {
        return None;
    }
    let (a, b): (usize, usize) = p[p.len() - 1];
    assert(as_spans(p@)[p@.len() - 1] == (a as int, b as int));
    let ghost name = c.last();
    assert(name == x@.subrange(a as int, b as int));
    assert(name.len() == b - a);
    if b - a == 1 && x[a] == '.' {
        assert(name =~= seq!['.']);
        return None;
    }
    if b - a == 2 && x[a] == '.' && x[a + 1] == '.' {
        assert(name =~= seq!['.', '.']);
        return None;
    }
    proof {
        if name == seq!['.'] {
            assert(name[0] == x@[a as int]);
        }
        if name == seq!['.', '.'] {
            assert(name[0] == x@[a as int]);
            assert(name[1] == x@[a + 1]);
        }
    }
    let run: Vec<char> = sub_chars(x.as_slice(), a, b);
    Some(string_of(run.as_slice()))
}

pub fn parent(path: &str) -> (r: Option<String>)
    ensures
        opt_text(r) == spec_parent(path@),
{
    let x: Vec<char> = chars_of(path);
    let p: Vec<(usize, usize)> = find_spans(x.as_slice());
    assert(as_spans(p@).len() == p@.len());
    if p.len() == 0 {
        return None;
    }
    if p.len() > 1 {
        let (a, b): (usize, usize) = p[p.len() - 2];
        assert(as_spans(p@)[p@.len() - 2] == (a as int, b as int));
        let run: Vec<char> = sub_chars(x.as_slice(), 0, b);
        return Some(string_of(run.as_slice()));
    }
    let mut out: String = String::new();
    if x.len() > 0 && x[0] == '/' {
        out.push('/');
        assert(out@ =~= seq!['/']);
    }
    Some(out)
}

/// Where the last dot of a name stands, if there is one.
pub open spec fn last_dot(name: Seq<char>) -> Option<int>
    decreases name.len(),
{
    if name.len() == 0 {
        None
    } else if name.last() == '.' {
        Some(name.len() - 1)
    } else {
        last_dot(name.drop_last())
    }
}

pub(crate) proof fn lemma_last_dot(name: Seq<char>)
    ensures
        last_dot(name) matches Some(i) ==> 0 <= i < name.len() && name[i] == '.',
    decreases name.len(),
{
    if name.len() > 0 && name.last() != '.' {
        lemma_last_dot(name.drop_last());
    }
}

/// A name up to its last dot. A name without a dot, or whose only dot begins it, is whole.
pub open spec fn stem_of(name: Seq<char>) -> Seq<char> {
    match last_dot(name) {
        Some(i) if i > 0 => name.take(i),
        _ => name,
    }
}

/// What follows the last dot of a name, unless that dot begins it.
pub open spec fn extension_of(name: Seq<char>) -> Option<Seq<char>> {
    match last_dot(name) {
        Some(i) if i > 0 => Some(name.skip(i + 1)),
        _ => None,
    }
}

pub open spec fn spec_file_stem(s: Seq<char>) -> Option<Seq<char>> {
    match spec_file_name(s) {
        Some(name) => Some(stem_of(name)),
        None => None,
    }
}

pub open spec fn spec_extension(s: Seq<char>) -> Option<Seq<char>> {
    match spec_file_name(s) {
        Some(name) => extension_of(name),
        None => None,
    }
}

fn find_last_dot(name: &[char]) -> (r: Option<usize>)
    ensures
        match r {
            Some(i) => last_dot(name@) == Some(i as int) && i < name@.len(),
            None => last_dot(name@) is None,
        },
{
    let mut n: usize = name.len();
    assert(name@.take(n as int) =~= name@);
    while n > 0
        invariant
            n <= name@.len(),
            last_dot(name@) == last_dot(name@.take(n as int)),
        decreases n,
    {
        if name[n - 1] == '.' {
            return Some(n - 1);
        }
        assert(name@.take(n as int).drop_last() =~= name@.take(n - 1));
        n = n - 1;
    }
    None
}

/// The name that a path ends in, up to its last dot.
pub fn file_stem(path: &str) -> (r: Option<String>)
    ensures
        opt_text(r) == spec_file_stem(path@),
{
    match file_name(path) {
        None => None,
        Some(name) => {
            let chars: Vec<char> = chars_of(name.as_str());
            match find_last_dot(chars.as_slice()) {
                Some(i) if i > 0 => {
                    let run: Vec<char> = sub_chars(chars.as_slice(), 0, i);
                    Some(string_of(run.as_slice()))
                },
                _ => Some(name),
            }
        },
    }
}

/// What follows the last dot of the name that a path ends in.
pub fn extension(path: &str) -> (r: Option<String>)
    ensures
        opt_text(r) == spec_extension(path@),
{
    match file_name(path) {
        None => None,
        Some(name) => {
            let chars: Vec<char> = chars_of(name.as_str());
            let n: usize = chars.len();
            match find_last_dot(chars.as_slice()) {
                Some(i) if i > 0 => {
                    let run: Vec<char> = sub_chars(chars.as_slice(), i + 1, n);
                    Some(string_of(run.as_slice()))
                },
                _ => None,
            }
        },
    }
}

/// Whether `base` leads to `path`: its components, the root among them, begin those of `path`.
pub open spec fn leads_to(base: Seq<char>, path: Seq<char>) -> bool {
    let b = components(base);
    let c = components(path);
    &&& is_absolute(base) ==> is_absolute(path)
    &&& !is_absolute(base) && b.len() > 0 ==> !is_absolute(path)
    &&& b.is_prefix_of(c)
}

/// What is left of `path` behind `base`.
pub open spec fn remainder(base: Seq<char>, path: Seq<char>) -> Seq<char> {
    let k = spans(base).len();
    let p = spans(path);
    if !is_absolute(base) && k == 0 {
        if p.len() > 0 {
            path.take(p.last().1)
        } else if is_absolute(path) {
            seq!['/']
        } else {
            Seq::empty()
        }
    } else if k < p.len() {
        path.subrange(p[k as int].0, p.last().1)
    } else {
        Seq::empty()
    }
}

pub open spec fn spec_strip_prefix(path: Seq<char>, base: Seq<char>) -> Option<Seq<char>> {
    if leads_to(base, path) {
        Some(remainder(base, path))
    } else {
        None
    }
}

/// What is left of `path` behind `base`, where `base` leads to `path`.
pub fn strip_prefix(path: &str, base: &str) -> (r: Option<String>)
    ensures
        opt_text(r) == spec_strip_prefix(path@, base@),
{
    let x: Vec<char> = chars_of(path);
    let y: Vec<char> = chars_of(base);
    let abs_x: bool = x.len() > 0 && x[0] == '/';
    let abs_y: bool = y.len() > 0 && y[0] == '/';
    let p: Vec<(usize, usize)> = find_spans(x.as_slice());
    let q: Vec<(usize, usize)> = find_spans(y.as_slice());
    let ghost cx = components(path@);
    let ghost cy = components(base@);
    assert(cx.len() == p@.len() && cy.len() == q@.len()) by {
        assert(as_spans(p@).len() == p@.len());
        assert(as_spans(q@).len() == q@.len());
    }
    if abs_y && !abs_x {
        return None;
    }
    if !abs_y && q.len() > 0 && abs_x {
        return None;
    }
    if q.len() > p.len() {
        return None;
    }
    for k in 0..q.len()
        invariant
            x@ == path@,
            y@ == base@,
            q@.len() <= p@.len(),
            as_spans(p@) == spans(x@),
            as_spans(q@) == spans(y@),
            forall|k: int| 0 <= k < p@.len() ==> (#[trigger] p@[k]).0 < p@[k].1 <= x@.len(),
            forall|k: int| 0 <= k < q@.len() ==> (#[trigger] q@[k]).0 < q@[k].1 <= y@.len(),
            cx == components(path@),
            cy == components(base@),
            cx.len() == p@.len(),
            cy.len() == q@.len(),
            forall|j: int| 0 <= j < k ==> #[trigger] cx[j] == cy[j],
    {
        assert(as_spans(p@)[k as int] == (p@[k as int].0 as int, p@[k as int].1 as int));
        assert(as_spans(q@)[k as int] == (q@[k as int].0 as int, q@[k as int].1 as int));
        if !same_run(x.as_slice(), p[k], y.as_slice(), q[k]) {
            assert(cx[k as int] != cy[k as int]);
            assert(cx.subrange(0, cy.len() as int)[k as int] == cx[k as int]);
            return None;
        }
    }
    assert(cx.subrange(0, cy.len() as int) =~= cy);
    let k: usize = q.len();
    assert(as_spans(q@).len() == q@.len());
    assert(as_spans(p@).len() == p@.len());
    if !abs_y && k == 0 {
        if p.len() > 0 {
            let (a, b): (usize, usize) = p[p.len() - 1];
            assert(as_spans(p@)[p@.len() - 1] == (a as int, b as int));
            let run: Vec<char> = sub_chars(x.as_slice(), 0, b);
            return Some(string_of(run.as_slice()));
        }
        let mut out: String = String::new();
        if abs_x {
            out.push('/');
            assert(out@ =~= seq!['/']);
        }
        return Some(out);
    }
    if k < p.len() {
        let (a, b): (usize, usize) = p[p.len() - 1];
        let (c, d): (usize, usize) = p[k];
        assert(as_spans(p@)[p@.len() - 1] == (a as int, b as int));
        assert(as_spans(p@)[k as int] == (c as int, d as int));
        let run: Vec<char> = sub_chars(x.as_slice(), c, b);
        return Some(string_of(run.as_slice()));
    }
    Some(String::new())
}

/// `base` with `name` put behind it as one more component. A name that starts at the root
/// takes the place of `base`.
pub open spec fn spec_join(base: Seq<char>, name: Seq<char>) -> Seq<char> {
    if is_absolute(name) || base.len() == 0 {
        name
    } else if base.last() == '/' {
        base + name
    } else {
        base.push('/') + name
    }
}

pub fn join(base: &str, name: &str) -> (r: String)
    ensures
        r@ == spec_join(base@, name@),
{
    let x: Vec<char> = chars_of(base);
    let y: Vec<char> = chars_of(name);
    if (y.len() > 0 && y[0] == '/') || x.len() == 0 {
        return name.to_owned();
    }
    let mut out: String = base.to_owned();
    if x[x.len() - 1] != '/' {
        out.push('/');
    }
    out.append(name);
    out
}

/// A set of paths, told apart by what they name and not by how they are spelled.
#[derive(Debug)]
pub struct PathSet {
    paths: Vec<String>,
}

impl View for PathSet {
    type V = Set<PathId>;

    closed spec fn view(&self) -> Set<PathId> {
        Set::new(
            |id: PathId|
                exists|i: int| 0 <= i < self.paths@.len() && path_id(#[trigger] self.paths@[i]@) == id,
        )
    }
}

impl PathSet {
    pub fn new() -> (r: PathSet)
        ensures
            r@ == Set::<PathId>::empty(),
    {
        PathSet { paths: Vec::new() }
    }

    pub fn is_empty(&self) -> (r: bool)
        ensures
            r == (self@ == Set::<PathId>::empty()),
    {
        proof {
            if self.paths@.len() > 0 {
                assert(self@.contains(path_id(self.paths@[0]@)));
            } else {
                assert(self@ =~= Set::<PathId>::empty());
            }
        }
        self.paths.len() == 0
    }

    pub fn contains(&self, path: &str) -> (r: bool)
        ensures
            r == self@.contains(path_id(path@)),
    {
        for i in 0..self.paths.len()
            invariant
                forall|k: int|
                    0 <= k < i ==> path_id(#[trigger] self.paths@[k]@) != path_id(path@),
        {
            if same_path(self.paths[i].as_str(), path) {
                return true;
            }
        }
        false
    }

    pub fn insert(&mut self, path: String)
        ensures
            final(self)@ == old(self)@.insert(path_id(path@)),
    {
        let ghost id = path_id(path@);
        let ghost before = self@;
        let ghost old_paths = self.paths@;
        if self.contains(path.as_str()) {
            assert(before.insert(id) =~= before);
            return;
        }
        self.paths.push(path);
        proof {
            let last = old_paths.len() as int;
            assert(path_id(self.paths@[last]@) == id);
            assert forall|x: PathId| self@.contains(x) == before.insert(id).contains(x) by {
                if before.contains(x) {
                    let i = choose|i: int|
                        0 <= i < old_paths.len() && path_id(#[trigger] old_paths[i]@) == x;
                    assert(self.paths@[i] == old_paths[i]);
                }
                if self@.contains(x) {
                    let i = choose|i: int|
                        0 <= i < self.paths@.len() && path_id(#[trigger] self.paths@[i]@) == x;
                    if i < last {
                        assert(path_id(old_paths[i]@) == x);
                    }
                }
            }
            assert(self@ =~= before.insert(id));
        }
    }

    pub fn remove(&mut self, path: &str)
        ensures
            final(self)@ == old(self)@.remove(path_id(path@)),
    {
        let ghost id = path_id(path@);
        let ghost before = self@;
        let mut kept: Vec<String> = Vec::new();
        for i in 0..self.paths.len()
            invariant
                id == path_id(path@),
                forall|k: int|
                    0 <= k < kept@.len() ==> path_id(#[trigger] kept@[k]@) != id && before.contains(
                        path_id(kept@[k]@),
                    ),
                before == self@,
                forall|k: int|
                    0 <= k < i && path_id(#[trigger] self.paths@[k]@) != id ==> kept@.contains(
                        self.paths@[k],
                    ),
        {
            let ghost was = kept@;
            if !same_path(self.paths[i].as_str(), path) {
                kept.push(self.paths[i].clone());
                assert(before.contains(path_id(self.paths@[i as int]@)));
                assert(kept@[was.len() as int] == self.paths@[i as int]);
                assert forall|k: int|
                    0 <= k < i && path_id(#[trigger] self.paths@[k]@) != id implies kept@.contains(
                    self.paths@[k],
                ) by {
                    let j = choose|j: int| 0 <= j < was.len() && was[j] == self.paths@[k];
                    assert(kept@[j] == self.paths@[k]);
                }
            }
        }
        let ghost old_paths = self.paths@;
        self.paths = kept;
        proof {
            assert forall|x: PathId| self@.contains(x) == before.remove(id).contains(x) by {
                if before.contains(x) && x != id {
                    let i = choose|i: int|
                        0 <= i < old_paths.len() && path_id(#[trigger] old_paths[i]@) == x;
                    let j = choose|j: int| 0 <= j < kept@.len() && kept@[j] == old_paths[i];
                    assert(path_id(self.paths@[j]@) == x);
                }
            }
            assert(self@ =~= before.remove(id));
        }
    }

    pub fn clear(&mut self)
        ensures
            final(self)@ == Set::<PathId>::empty(),
    {
        self.paths = Vec::new();
        assert(self@ =~= Set::<PathId>::empty());
    }
}

} // verus!
