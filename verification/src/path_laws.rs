//! What holds of paths: how they are put together and taken apart.

use crate::paths::{
    components, is_absolute, is_component, last_dot, leads_to, lemma_run_end, lemma_spans, path_id,
    run_end, spans, spans_from, spec_extension, spec_file_name, spec_file_stem, spec_join,
    spec_parent, spec_strip_prefix,
};
use vstd::prelude::*;

verus! {

/// Whether a text can be the name of a file: it is not empty, holds no slash, and is not one of
/// the names that stand for a directory itself or the one above.
pub open spec fn is_plain_name(name: Seq<char>) -> bool {
    &&& name.len() > 0
    &&& !name.contains('/')
    &&& name != seq!['.']
    &&& name != seq!['.', '.']
}

proof fn lemma_run_end_alike(s: Seq<char>, t: Seq<char>, i: int, e: int)
    requires
        0 <= i <= e < s.len(),
        e < t.len(),
        forall|k: int| i <= k <= e ==> s[k] == t[k],
        s[e] == '/',
    ensures
        run_end(s, i) == run_end(t, i),
        run_end(s, i) <= e,
    decreases e - i,
{
    if s[i] != '/' {
        lemma_run_end_alike(s, t, i + 1, e);
    }
}

proof fn lemma_run_end_to(s: Seq<char>, i: int, e: int)
    requires
        0 <= i <= e <= s.len(),
        forall|k: int| i <= k < e ==> s[k] != '/',
        e == s.len() || s[e] == '/',
    ensures
        run_end(s, i) == e,
    decreases e - i,
{
    if i < e {
        lemma_run_end_to(s, i + 1, e);
    }
}

/// Behind a text that ends in a slash, a name is one more component.
proof fn lemma_spans_of_joined(base: Seq<char>, name: Seq<char>, i: int)
    requires
        is_plain_name(name),
        base.len() > 0,
        base.last() == '/',
        0 <= i <= base.len(),
    ensures
        spans_from(base + name, i) == spans_from(base, i).push(
            (base.len() as int, (base + name).len() as int),
        ),
    decreases base.len() - i,
{
    let s = base + name;
    let b = base.len() as int;
    if i == b {
        assert forall|k: int| b <= k < s.len() implies s[k] != '/' by {
            assert(name.contains(name[k - b]));
        }
        lemma_run_end_to(s, b, s.len() as int);
        assert(s[b] == name[0]);
        assert(name.contains(name[0]));
        if name.len() == 1 {
            assert(name[0] != '.') by {
                if name[0] == '.' {
                    assert(name =~= seq!['.']);
                }
            }
        }
        assert(is_component(s, b, s.len() as int));
        assert(spans_from(s, s.len() as int).len() == 0);
        assert(spans_from(s, b) =~= seq![(b, s.len() as int)]);
        assert(spans_from(base, b).len() == 0);
        assert(spans_from(base, b).push((b, s.len() as int)) =~= seq![(b, s.len() as int)]);
    } else if s[i] == '/' {
        assert(base[i] == '/');
        lemma_spans_of_joined(base, name, i + 1);
    } else {
        assert(base[i] == s[i]);
        lemma_run_end_alike(base, s, i, b - 1);
        let e = run_end(base, i);
        lemma_run_end(base, i);
        assert(run_end(s, i) == e);
        lemma_spans_of_joined(base, name, e);
        assert(is_component(s, i, e) == is_component(base, i, e));
        let more = (b, s.len() as int);
        assert((seq![(i, e)] + spans_from(base, e)).push(more) =~= seq![(i, e)] + spans_from(
            base,
            e,
        ).push(more));
    }
}

proof fn lemma_run_end_before_slash(d: Seq<char>, i: int)
    requires
        0 <= i <= d.len(),
    ensures
        run_end(d.push('/'), i) == run_end(d, i),
    decreases d.len() - i,
{
    if i < d.len() && d[i] != '/' {
        lemma_run_end_before_slash(d, i + 1);
    }
}

/// A slash at the end of a path adds no component.
proof fn lemma_spans_before_slash(d: Seq<char>, i: int)
    requires
        0 <= i <= d.len(),
    ensures
        spans_from(d.push('/'), i) == spans_from(d, i),
    decreases d.len() - i,
{
    let s = d.push('/');
    if i == d.len() {
        assert(spans_from(s, i) == spans_from(s, i + 1));
        assert(spans_from(s, i + 1).len() == 0);
        assert(spans_from(d, i).len() == 0);
        assert(spans_from(s, i) =~= spans_from(d, i));
    } else if d[i] == '/' {
        lemma_spans_before_slash(d, i + 1);
    } else {
        lemma_run_end_before_slash(d, i);
        lemma_run_end(d, i);
        let e = run_end(d, i);
        lemma_spans_before_slash(d, e);
        assert(is_component(s, i, e) == is_component(d, i, e));
    }
}

proof fn lemma_joined_spans(base: Seq<char>, name: Seq<char>)
    requires
        is_plain_name(name),
        base.len() > 0,
    ensures
        ({
            let s = spec_join(base, name);
            let start = s.len() - name.len();
            &&& spans(s) == spans(base).push((start as int, s.len() as int))
            &&& s.skip(start as int) == name
            &&& base.is_prefix_of(s)
            &&& is_absolute(s) == is_absolute(base)
        }),
{
    assert(name.contains(name[0]));
    let b = if base.last() == '/' {
        base
    } else {
        base.push('/')
    };
    let s = spec_join(base, name);
    assert(s == b + name);
    lemma_spans_of_joined(b, name, 0);
    if base.last() != '/' {
        lemma_spans_before_slash(base, 0);
    }
    assert(s.skip(s.len() - name.len()) =~= name);
    assert(s.subrange(0, base.len() as int) =~= base);
}

/// Putting a name behind a path adds that name to its components, and nothing else.
pub proof fn law_join_adds_a_component(base: Seq<char>, name: Seq<char>)
    requires
        is_plain_name(name),
        base.len() > 0,
    ensures
        components(spec_join(base, name)) == components(base).push(name),
        is_absolute(spec_join(base, name)) == is_absolute(base),
        spec_join(Seq::empty(), name) == name,
        is_absolute(base) ==> spec_join(name, base) == base,
{
    lemma_joined_spans(base, name);
    lemma_spans(base, 0);
    let s = spec_join(base, name);
    let start = s.len() - name.len();
    assert(components(s).len() == components(base).len() + 1);
    assert forall|k: int| 0 <= k < components(s).len() implies components(s)[k] == components(
        base,
    ).push(name)[k] by {
        if k < components(base).len() {
            let p = spans(base)[k];
            assert(s.subrange(p.0, p.1) =~= base.subrange(p.0, p.1)) by {
                assert forall|j: int| p.0 <= j < p.1 implies s[j] == base[j] by {
                    assert(s.subrange(0, base.len() as int)[j] == base[j]);
                }
            }
        } else {
            assert(s.subrange(start as int, s.len() as int) =~= name);
        }
    }
    assert(components(s) =~= components(base).push(name));
}

/// The last component of a path is its name, unless it is one that stands for a directory itself
/// or the one above; the name and the parent of a path put together are the path again.
pub proof fn law_name_and_parent_of_a_joined_path(base: Seq<char>, name: Seq<char>)
    requires
        is_plain_name(name),
        base.len() > 0,
    ensures
        spec_file_name(spec_join(base, name)) == Some(name),
        spec_parent(spec_join(base, name)) is Some,
        path_id(spec_parent(spec_join(base, name))->0) == path_id(base),
        base.last() != '/' && !ends_in_dots(base) ==> spec_parent(spec_join(base, name)) == Some(
            base,
        ),
{
    law_join_adds_a_component(base, name);
    lemma_joined_spans(base, name);
    let s = spec_join(base, name);
    assert(components(s).last() == name);
    let p = spans(base);
    if p.len() > 0 {
        let e = p.last().1;
        lemma_spans(base, 0);
        assert(spans(s)[spans(s).len() - 2] == p.last());
        assert(s.take(e) =~= base.take(e)) by {
            assert forall|j: int| 0 <= j < e implies s[j] == base[j] by {
                assert(s.subrange(0, base.len() as int)[j] == base[j]);
            }
        }
        lemma_cut_after_last_span(base, 0);
        assert(path_id(base.take(e)) == path_id(base)) by {
            let c = base.take(e);
            assert(spans(c) == p);
            assert forall|k: int| 0 <= k < p.len() implies c.subrange(p[k].0, p[k].1)
                == base.subrange(p[k].0, p[k].1) by {
                assert(p[k].1 <= e) by {
                    if k < p.len() - 1 {
                        assert(p[k].1 <= p[p.len() - 1].0);
                    }
                }
                assert(c.subrange(p[k].0, p[k].1) =~= base.subrange(p[k].0, p[k].1));
            }
            assert(components(c) =~= components(base));
            assert(0 <= p[0].0 < p[0].1 <= base.len());
            assert(p[p.len() - 1].1 > 0);
        }
        if base.last() != '/' && !ends_in_dots(base) {
            lemma_last_span_ends_the_path(base, 0);
            assert(base.take(e) =~= base);
        }
    } else {
        lemma_no_spans(base);
        assert(components(seq!['/']) =~= Seq::<Seq<char>>::empty()) by {
            assert(spans_from(seq!['/'], 0) == spans_from(seq!['/'], 1));
            assert(spans_from(seq!['/'], 1).len() == 0);
        }
        assert(components(base) =~= Seq::<Seq<char>>::empty());
        assert(path_id(seq!['/']) =~= path_id(base));
        if base.last() != '/' && !ends_in_dots(base) {
            lemma_last_span_ends_the_path(base, 0);
        }
    }
}

/// Going up from a path that two names were put behind leads to the one that was there before,
/// and to the first of the names.
pub proof fn law_going_up_from_a_joined_path(base: Seq<char>, a: Seq<char>, b: Seq<char>)
    requires
        is_plain_name(a),
        is_plain_name(b),
        base.len() > 0,
    ensures
        ({
            let inner = spec_join(base, a);
            let outer = spec_join(inner, b);
            &&& spec_file_name(outer) == Some(b)
            &&& spec_parent(outer) == Some(inner)
            &&& spec_file_name(inner) == Some(a)
            &&& inner.len() > 0
        }),
{
    let inner = spec_join(base, a);
    lemma_joined_spans(base, a);
    assert(inner.skip(inner.len() - a.len()) == a);
    assert(inner.last() == a.last());
    assert(a.contains(a.last()));
    if ends_in_dots(inner) {
        if a.len() == 1 {
            assert(a =~= seq!['.']);
        } else {
            assert(inner[inner.len() - 2] == a[a.len() - 2]);
            assert(a.contains(a[a.len() - 2]));
        }
    }
    law_name_and_parent_of_a_joined_path(base, a);
    law_name_and_parent_of_a_joined_path(inner, b);
}

/// Whether a path ends in a component that counts for nothing.
pub open spec fn ends_in_dots(s: Seq<char>) -> bool {
    s.len() >= 2 && s.last() == '.' && s[s.len() - 2] == '/'
}

proof fn lemma_no_spans(s: Seq<char>)
    requires
        s.len() > 0,
        spans(s).len() == 0,
    ensures
        is_absolute(s),
{
    if s[0] != '/' {
        lemma_run_end(s, 0);
    }
}

/// Cutting a path off behind its last component keeps its components.
proof fn lemma_cut_after_last_span(d: Seq<char>, i: int)
    requires
        0 <= i <= d.len(),
        spans_from(d, i).len() > 0,
    ensures
        ({
            let e = spans_from(d, i).last().1;
            &&& i < e <= d.len()
            &&& spans_from(d.take(e), i) == spans_from(d, i)
        }),
    decreases d.len() - i,
{
    lemma_spans(d, i);
    let all = spans_from(d, i);
    let e = all.last().1;
    assert(i <= all[all.len() - 1].0 < all[all.len() - 1].1 <= d.len());
    let c = d.take(e);
    if d[i] == '/' {
        lemma_cut_after_last_span(d, i + 1);
        assert(c[i] == '/');
    } else {
        lemma_run_end(d, i);
        let r = run_end(d, i);
        assert(i < r);
        let rest = spans_from(d, r);
        if rest.len() > 0 {
            lemma_cut_after_last_span(d, r);
            assert(all.last() == rest.last());
            assert(r < e);
            assert(d[r] == '/');
            lemma_run_end_alike(d, c, i, r);
            assert(is_component(c, i, r) == is_component(d, i, r));
            assert(c[i] == d[i]);
        } else {
            assert(is_component(d, i, r));
            assert(all =~= seq![(i, r)]);
            assert(e == r);
            lemma_run_end_to(c, i, r);
            assert(c[i] == d[i]);
            assert(is_component(c, i, r));
            assert(spans_from(c, r).len() == 0);
            assert(spans_from(c, i) =~= seq![(i, r)]);
        }
    }
}

/// A path that ends neither in a slash nor in a component that counts for nothing ends in its
/// last component.
proof fn lemma_last_span_ends_the_path(d: Seq<char>, i: int)
    requires
        0 <= i < d.len(),
        d.last() != '/',
        !ends_in_dots(d),
        i == 0 || d[i - 1] == '/' || d[i] == '/',
    ensures
        spans_from(d, i).len() > 0,
        spans_from(d, i).last().1 == d.len(),
    decreases d.len() - i,
{
    if d[i] == '/' {
        assert(i + 1 < d.len());
        lemma_last_span_ends_the_path(d, i + 1);
    } else {
        lemma_run_end(d, i);
        let r = run_end(d, i);
        if r < d.len() {
            lemma_last_span_ends_the_path(d, r);
        } else {
            assert(is_component(d, i, r)) by {
                if r == i + 1 && d[i] == '.' && i > 0 {
                    assert(d[i - 1] == '/');
                    assert(d.last() == d[i]);
                }
            }
            assert(spans_from(d, r).len() == 0);
            assert(spans_from(d, i) =~= seq![(i, r)]);
        }
    }
}

/// A path that names are put behind one after the other.
pub open spec fn with_names(root: Seq<char>, names: Seq<Seq<char>>) -> Seq<char>
    decreases names.len(),
{
    if names.len() == 0 {
        root
    } else {
        spec_join(with_names(root, names.drop_last()), names.last())
    }
}

/// The components of a path are the names it was put together from, so that two such paths are
/// the same exactly where their names are, one by one.
pub proof fn law_paths_are_told_apart_by_their_names(
    root: Seq<char>,
    a: Seq<Seq<char>>,
    b: Seq<Seq<char>>,
)
    requires
        root == seq!['/'],
        forall|k: int| 0 <= k < a.len() ==> is_plain_name(#[trigger] a[k]),
        forall|k: int| 0 <= k < b.len() ==> is_plain_name(#[trigger] b[k]),
    ensures
        components(with_names(root, a)) == a,
        is_absolute(with_names(root, a)),
        path_id(with_names(root, a)) == path_id(with_names(root, b)) <==> a == b,
{
    lemma_with_names(root, a);
    lemma_with_names(root, b);
}

proof fn lemma_with_names(root: Seq<char>, names: Seq<Seq<char>>)
    requires
        root == seq!['/'],
        forall|k: int| 0 <= k < names.len() ==> is_plain_name(#[trigger] names[k]),
    ensures
        components(with_names(root, names)) == names,
        is_absolute(with_names(root, names)),
        with_names(root, names).len() > 0,
    decreases names.len(),
{
    if names.len() == 0 {
        assert(spans_from(root, 0) == spans_from(root, 1));
        assert(spans_from(root, 1).len() == 0);
        assert(components(root) =~= names);
    } else {
        let front = names.drop_last();
        assert forall|k: int| 0 <= k < front.len() implies is_plain_name(#[trigger] front[k]) by {
            assert(is_plain_name(names[k]));
        }
        lemma_with_names(root, front);
        assert(is_plain_name(names[names.len() - 1]));
        law_join_adds_a_component(with_names(root, front), names.last());
        assert(components(with_names(root, front)).push(names.last()) =~= names);
    }
}

/// A name with an ending is its stem, a dot and the ending, where the ending holds no dot.
pub proof fn law_stem_and_ending_make_the_name(base: Seq<char>, stem: Seq<char>, ending: Seq<char>)
    requires
        base.len() > 0,
        stem.len() > 0,
        !stem.contains('/'),
        !ending.contains('/'),
        !ending.contains('.'),
        is_plain_name(stem.push('.') + ending),
    ensures
        spec_file_stem(spec_join(base, stem.push('.') + ending)) == Some(stem),
        spec_extension(spec_join(base, stem.push('.') + ending)) == Some(ending),
{
    let name = stem.push('.') + ending;
    law_name_and_parent_of_a_joined_path(base, name);
    lemma_dot_before(stem, ending);
    assert(name.take(stem.len() as int) =~= stem);
    assert(name.skip(stem.len() as int + 1) =~= ending);
}

proof fn lemma_dot_before(stem: Seq<char>, ending: Seq<char>)
    requires
        !ending.contains('.'),
    ensures
        last_dot(stem.push('.') + ending) == Some(stem.len() as int),
    decreases ending.len(),
{
    let name = stem.push('.') + ending;
    if ending.len() == 0 {
        assert(name =~= stem.push('.'));
    } else {
        let front = ending.drop_last();
        assert(!front.contains('.')) by {
            if front.contains('.') {
                let k = choose|k: int| 0 <= k < front.len() && front[k] == '.';
                assert(ending[k] == '.');
            }
        }
        lemma_dot_before(stem, front);
        assert(name.last() == ending.last());
        assert(ending.contains(ending.last()));
        assert(name.drop_last() =~= stem.push('.') + front);
    }
}

/// What is left of a path behind another is the name that was put behind it, and a path leads
/// nowhere but to what begins with its names.
pub proof fn law_what_is_left_behind_a_path(base: Seq<char>, name: Seq<char>, other: Seq<char>)
    requires
        is_plain_name(name),
        is_absolute(base),
    ensures
        spec_strip_prefix(spec_join(base, name), base) == Some(name),
        spec_strip_prefix(other, base) is Some <==> is_absolute(other) && components(
            base,
        ).is_prefix_of(components(other)),
{
    lemma_joined_spans(base, name);
    law_join_adds_a_component(base, name);
    let s = spec_join(base, name);
    assert(components(s).subrange(0, components(base).len() as int) =~= components(base));
    assert(leads_to(base, s));
    let k = spans(base).len();
    assert(spans(s)[k as int] == spans(s).last());
    assert(s.subrange(s.len() - name.len(), s.len() as int) =~= s.skip(s.len() - name.len()));
}

} // verus!
