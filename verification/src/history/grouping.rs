//! Group conversations by project path for the dashboard view.

use crate::history::{all_wf, clone_opt, Conversation, ProviderKind};
use crate::order::{comes_before, lemma_order_is_distinct, order_by_key, rearrange};
use crate::paths::{opt_text, path_id, same_path, PathId};
use crate::time::Timestamp;
use vstd::prelude::*;

verus! {

/// What the file system says of the project that a conversation belongs to.
#[derive(Debug)]
pub struct ProjectFacts {
    /// The resolved form of the path that the conversation is grouped by, where there is one.
    pub canonical: Option<String>,
    /// The label for that path.
    pub short_name: String,
    /// Whether the project's directory is still there.
    pub exists: bool,
}

/// A bucket of conversations sharing the same project path.
#[derive(Debug)]
pub struct ProjectGroup {
    /// Stable identity for persistence and selection. `None` = unknown bucket.
    pub canonical_path: Option<String>,
    /// Human-readable label.
    pub display_name: String,
    /// Indices into the source conversations, sorted newest first.
    pub conversation_indices: Vec<usize>,
    /// Most recent conversation timestamp in the group.
    pub last_activity: Timestamp,
    /// Providers present in this group (for status badges), each once.
    pub providers: Vec<ProviderKind>,
}

/// The resolved form of `path`, or `path` itself where it cannot be resolved.
pub open spec fn resolved(path: Seq<char>, canonical: Option<Seq<char>>) -> Seq<char> {
    match canonical {
        Some(c) => c,
        None => path,
    }
}

/// The path that a conversation is grouped by: that of its project, else its working directory.
pub open spec fn grouping_path(conv: &Conversation) -> Option<Seq<char>> {
    match conv.project_path {
        Some(p) => Some(p@),
        None => match conv.cwd {
            Some(p) => Some(p@),
            None => None,
        },
    }
}

/// The key that a conversation is grouped under.
pub open spec fn spec_group_key(conv: &Conversation, facts: &ProjectFacts) -> Option<Seq<char>> {
    match grouping_path(conv) {
        Some(p) => Some(resolved(p, opt_text(facts.canonical))),
        None => None,
    }
}

/// A key apart from how its path is spelled.
pub open spec fn key_id(key: Option<Seq<char>>) -> Option<PathId> {
    match key {
        Some(p) => Some(path_id(p)),
        None => None,
    }
}

/// `canonical` where the path could be resolved, otherwise a copy of the path.
fn canonicalize_or_clone(path: &String, canonical: &Option<String>) -> (r: String)
    ensures
        r@ == resolved(path@, opt_text(*canonical)),
{
    match canonical {
        Some(c) => c.clone(),
        None => path.clone(),
    }
}

/// Stable key for a conversation's project: the resolved project path, else the resolved
/// working directory, else none.
pub fn group_key(conv: &Conversation, facts: &ProjectFacts) -> (r: Option<String>)
    ensures
        opt_text(r) == spec_group_key(conv, facts),
{
    if let Some(p) = &conv.project_path {
        return Some(canonicalize_or_clone(p, &facts.canonical));
    }
    if let Some(p) = &conv.cwd {
        return Some(canonicalize_or_clone(p, &facts.canonical));
    }
    None
}

/// The label of a group: the short name of its path, or, without a path, the project name
/// that its first conversation gives.
pub open spec fn spec_display_name(conv: &Conversation, facts: &ProjectFacts) -> Seq<char> {
    if spec_group_key(conv, facts) is Some {
        facts.short_name@
    } else {
        match conv.project_name {
            Some(n) => n@,
            None => "<unknown>"@,
        }
    }
}

pub fn display_name_for(conv: &Conversation, key: &Option<String>, facts: &ProjectFacts) -> (r:
    String)
    requires
        opt_text(*key) == spec_group_key(conv, facts),
    ensures
        r@ == spec_display_name(conv, facts),
{
    if key.is_some() {
        return facts.short_name.clone();
    }
    match &conv.project_name {
        Some(n) => n.clone(),
        None => "<unknown>".to_owned(),
    }
}

/// The key of conversation `i`, apart from spelling.
pub open spec fn key_at(convs: Seq<Conversation>, facts: Seq<ProjectFacts>, i: int) -> Option<
    PathId,
> {
    key_id(spec_group_key(&convs[i], &facts[i]))
}

/// Whether conversation `i` is listed before conversation `j`: the newer one first, and the
/// one with the smaller index where they are equally old.
pub open spec fn newer(convs: Seq<Conversation>, i: usize, j: usize) -> bool {
    let a = convs[i as int].timestamp.instant();
    let b = convs[j as int].timestamp.instant();
    a > b || a == b && i < j
}

pub open spec fn newest_first(convs: Seq<Conversation>, v: Seq<usize>) -> bool {
    forall|a: int, b: int|
        0 <= a < b < v.len() ==> newer(convs, #[trigger] v[a], #[trigger] v[b])
}

/// Whether `g` is the group of the key of conversation `first`, which is the first one of
/// that key.
pub open spec fn is_group(
    convs: Seq<Conversation>,
    facts: Seq<ProjectFacts>,
    g: ProjectGroup,
    first: int,
) -> bool {
    let v = g.conversation_indices@;
    &&& 0 <= first < convs.len()
    &&& forall|j: int|
        0 <= j < first ==> #[trigger] key_at(convs, facts, j) != key_at(convs, facts, first)
    &&& opt_text(g.canonical_path) == spec_group_key(&convs[first], &facts[first])
    &&& g.display_name@ == spec_display_name(&convs[first], &facts[first])
    &&& newest_first(convs, v)
    &&& forall|i: int| 0 <= i < v.len() ==> 0 <= #[trigger] v[i] < convs.len()
    &&& forall|i: usize|
        0 <= i < convs.len() ==> (#[trigger] v.contains(i) <==> key_at(convs, facts, i as int)
            == key_at(convs, facts, first))
    &&& v.len() > 0
    &&& g.last_activity == convs[v[0] as int].timestamp
    &&& g.providers@.no_duplicates()
    &&& forall|p: ProviderKind|
        #[trigger] g.providers@.contains(p) <==> exists|k: int|
            0 <= k < v.len() && (#[trigger] convs[v[k] as int]).provider == p
}

/// Whether some group lists conversation `i`.
pub open spec fn is_listed(groups: Seq<ProjectGroup>, i: usize) -> bool {
    exists|g: int|
        0 <= g < groups.len() && (#[trigger] groups[g]).conversation_indices@.contains(i)
}

/// The first conversation of a group.
pub open spec fn first_of(convs: Seq<Conversation>, facts: Seq<ProjectFacts>, g: ProjectGroup) -> int {
    choose|f: int| is_group(convs, facts, g, f)
}

/// Whether group `g` is listed before group `h`: the one with the later activity first; of
/// two equally late ones the one with a known path first; then the one that was seen first.
pub open spec fn group_before(
    convs: Seq<Conversation>,
    facts: Seq<ProjectFacts>,
    g: ProjectGroup,
    h: ProjectGroup,
) -> bool {
    let a = g.last_activity.instant();
    let b = h.last_activity.instant();
    ||| a > b
    ||| a == b && g.canonical_path is Some && h.canonical_path is None
    ||| a == b && (g.canonical_path is Some) == (h.canonical_path is Some) && first_of(
        convs,
        facts,
        g,
    ) < first_of(convs, facts, h)
}

/// Whether `groups` is `convs` bucketed by project path.
#[verifier::opaque]
pub open spec fn is_grouping(
    convs: Seq<Conversation>,
    facts: Seq<ProjectFacts>,
    groups: Seq<ProjectGroup>,
) -> bool {
    &&& forall|g: int|
        0 <= g < groups.len() ==> is_group(
            convs,
            facts,
            #[trigger] groups[g],
            first_of(convs, facts, groups[g]),
        )
    &&& forall|i: usize| 0 <= i < convs.len() ==> #[trigger] is_listed(groups, i)
    &&& forall|g: int, h: int|
        0 <= g < h < groups.len() ==> key_id(opt_text((#[trigger] groups[g]).canonical_path))
            != key_id(opt_text((#[trigger] groups[h]).canonical_path))
    &&& forall|g: int, h: int|
        0 <= g < h < groups.len() ==> group_before(
            convs,
            facts,
            #[trigger] groups[g],
            #[trigger] groups[h],
        )
}

/// A group has one first conversation.
proof fn lemma_first_is_unique(
    convs: Seq<Conversation>,
    facts: Seq<ProjectFacts>,
    g: ProjectGroup,
    f: int,
)
    requires
        is_group(convs, facts, g, f),
        convs.len() <= usize::MAX,
    ensures
        first_of(convs, facts, g) == f,
{
    let e = first_of(convs, facts, g);
    assert(is_group(convs, facts, g, e));
    let v = g.conversation_indices@;
    assert(v.contains(f as usize));
    assert(v.contains(e as usize));
    assert(key_at(convs, facts, e) == key_at(convs, facts, f));
    if e < f {
        assert(key_at(convs, facts, e) != key_at(convs, facts, f));
    }
    if f < e {
        assert(key_at(convs, facts, f) != key_at(convs, facts, e));
    }
}

/// Every conversation is in exactly one group.
pub proof fn law_each_conversation_in_one_group(
    convs: Seq<Conversation>,
    facts: Seq<ProjectFacts>,
    groups: Seq<ProjectGroup>,
    i: usize,
)
    requires
        is_grouping(convs, facts, groups),
        i < convs.len(),
    ensures
        is_listed(groups, i),
        forall|g: int, h: int|
            0 <= g < groups.len() && 0 <= h < groups.len() && (
            #[trigger] groups[g]).conversation_indices@.contains(i) && (
            #[trigger] groups[h]).conversation_indices@.contains(i) ==> g == h,
{
    reveal(is_grouping);
    assert forall|g: int, h: int|
        0 <= g < groups.len() && 0 <= h < groups.len() && (
        #[trigger] groups[g]).conversation_indices@.contains(i) && (
        #[trigger] groups[h]).conversation_indices@.contains(i) implies g == h by {
        let a = first_of(convs, facts, groups[g]);
        let b = first_of(convs, facts, groups[h]);
        assert(is_group(convs, facts, groups[g], a));
        assert(is_group(convs, facts, groups[h], b));
        assert(key_at(convs, facts, a) == key_at(convs, facts, b));
    }
}

/// Whether `path` is what a conversation is filed under: the resolved form of its path where it
/// has one, else the path itself; the path is that of its project, or, without one, its working
/// directory.
pub open spec fn filed_under(conv: Conversation, facts: ProjectFacts, path: Seq<char>) -> bool {
    &&& conv.project_path is Some || conv.cwd is Some
    &&& facts.canonical is Some ==> path == facts.canonical->0@
    &&& facts.canonical is None && conv.project_path is Some ==> path == conv.project_path->0@
    &&& facts.canonical is None && conv.project_path is None ==> path == conv.cwd->0@
}

/// A conversation with a project path, or without one a working directory, is in a group with a
/// path, and that is the path it is filed under; one with neither is in the group without a path.
/// This holds of the conversations of every provider.
pub proof fn law_group_has_the_path_of_its_conversations(
    convs: Seq<Conversation>,
    facts: Seq<ProjectFacts>,
    groups: Seq<ProjectGroup>,
    g: int,
    i: usize,
)
    requires
        is_grouping(convs, facts, groups),
        i < convs.len(),
        0 <= g < groups.len(),
        groups[g].conversation_indices@.contains(i),
    ensures
        convs[i as int].project_path is Some || convs[i as int].cwd is Some
            <==> groups[g].canonical_path is Some,
        forall|path: Seq<char>| #[trigger]
            filed_under(convs[i as int], facts[i as int], path) ==> path_id(
                groups[g].canonical_path->0@,
            ) == path_id(path),
        convs[i as int].project_path is Some && facts[i as int].canonical is Some ==> path_id(
            groups[g].canonical_path->0@,
        ) == path_id(facts[i as int].canonical->0@),
        convs[i as int].project_path is Some && facts[i as int].canonical is None ==> path_id(
            groups[g].canonical_path->0@,
        ) == path_id(convs[i as int].project_path->0@),
{
    reveal(is_grouping);
    let first = first_of(convs, facts, groups[g]);
    assert(is_group(convs, facts, groups[g], first));
    assert(key_at(convs, facts, i as int) == key_at(convs, facts, first));
}

/// Two conversations with paths are in the same group exactly where they are filed under the
/// same path, and all conversations without a path are together.
pub proof fn law_same_group_is_same_path(
    convs: Seq<Conversation>,
    facts: Seq<ProjectFacts>,
    groups: Seq<ProjectGroup>,
    g: int,
    i: usize,
    j: usize,
    p: Seq<char>,
    q: Seq<char>,
)
    requires
        is_grouping(convs, facts, groups),
        i < convs.len(),
        j < convs.len(),
        0 <= g < groups.len(),
        groups[g].conversation_indices@.contains(i),
    ensures
        filed_under(convs[i as int], facts[i as int], p) && filed_under(
            convs[j as int],
            facts[j as int],
            q,
        ) ==> (groups[g].conversation_indices@.contains(j) <==> path_id(p) == path_id(q)),
        convs[i as int].project_path is None && convs[i as int].cwd is None ==> (
        groups[g].conversation_indices@.contains(j) <==> convs[j as int].project_path is None
            && convs[j as int].cwd is None),
{
    reveal(is_grouping);
    let first = first_of(convs, facts, groups[g]);
    assert(is_group(convs, facts, groups[g], first));
    assert(key_at(convs, facts, i as int) == key_at(convs, facts, first));
    assert(groups[g].conversation_indices@.contains(j) <==> key_at(convs, facts, j as int)
        == key_at(convs, facts, first));
}

/// A group is named after the path of its conversations: by the short name that goes with the
/// conversation that came in first. The group without a path goes by the project name of that
/// conversation. It lists only conversations of the list, each once, and exactly the providers
/// that they have.
pub proof fn law_group_is_named_after_its_first_conversation(
    convs: Seq<Conversation>,
    facts: Seq<ProjectFacts>,
    groups: Seq<ProjectGroup>,
    g: int,
    i: usize,
)
    requires
        is_grouping(convs, facts, groups),
        0 <= g < groups.len(),
        convs.len() <= usize::MAX,
        i < convs.len(),
        groups[g].conversation_indices@.contains(i),
        forall|j: usize|
            groups[g].conversation_indices@.contains(j) && j < convs.len() ==> i <= j,
    ensures
        convs[i as int].project_path is Some || convs[i as int].cwd is Some
            ==> groups[g].display_name@ == facts[i as int].short_name@,
        convs[i as int].project_path is None && convs[i as int].cwd is None
            && convs[i as int].project_name is Some ==> groups[g].display_name@
            == convs[i as int].project_name->0@,
        convs[i as int].project_path is None && convs[i as int].cwd is None
            && convs[i as int].project_name is None ==> groups[g].display_name@ == "<unknown>"@,
        forall|k: int|
            0 <= k < groups[g].conversation_indices@.len() ==> (
            #[trigger] groups[g].conversation_indices@[k]) < convs.len(),
        groups[g].conversation_indices@.no_duplicates(),
        forall|k: int|
            0 <= k < groups[g].conversation_indices@.len() ==> groups[g].providers@.contains(
                convs[#[trigger] groups[g].conversation_indices@[k] as int].provider,
            ),
        forall|p: ProviderKind| #[trigger]
            groups[g].providers@.contains(p) ==> exists|k: int|
                0 <= k < groups[g].conversation_indices@.len()
                    && convs[#[trigger] groups[g].conversation_indices@[k] as int].provider == p,
{
    reveal(is_grouping);
    let group = groups[g];
    let v = group.conversation_indices@;
    let first = first_of(convs, facts, group);
    assert(is_group(convs, facts, group, first));
    assert(v.contains(first as usize));
    assert(key_at(convs, facts, i as int) == key_at(convs, facts, first));
    assert(i <= first as usize);
    assert(first == i);
    assert forall|a: int, b: int| 0 <= a < v.len() && 0 <= b < v.len() && a != b implies v[a]
        != v[b] by {
        if a < b {
            assert(newer(convs, v[a], v[b]));
        } else {
            assert(newer(convs, v[b], v[a]));
        }
    }
    assert forall|k: int| 0 <= k < v.len() implies group.providers@.contains(
        convs[#[trigger] v[k] as int].provider,
    ) by {
        assert(convs[v[k] as int].provider == convs[v[k] as int].provider);
    }
    assert forall|p: ProviderKind| #[trigger] group.providers@.contains(p) implies exists|k: int|
        0 <= k < v.len() && convs[#[trigger] v[k] as int].provider == p by {
        let k = choose|k: int| 0 <= k < v.len() && (#[trigger] convs[v[k] as int]).provider == p;
        assert(convs[v[k] as int].provider == p);
    }
}

/// The activity of a group is that of its latest conversation.
pub proof fn law_last_activity_is_the_latest(
    convs: Seq<Conversation>,
    facts: Seq<ProjectFacts>,
    groups: Seq<ProjectGroup>,
    g: int,
    i: usize,
)
    requires
        is_grouping(convs, facts, groups),
        0 <= g < groups.len(),
        groups[g].conversation_indices@.contains(i),
    ensures
        convs[i as int].timestamp.instant() <= groups[g].last_activity.instant(),
        exists|k: int|
            0 <= k < convs.len() && (#[trigger] convs[k]).timestamp == groups[g].last_activity,
{
    reveal(is_grouping);
    let v = groups[g].conversation_indices@;
    assert(is_group(convs, facts, groups[g], first_of(convs, facts, groups[g])));
    let k = choose|k: int| 0 <= k < v.len() && v[k] == i;
    if k > 0 {
        assert(newer(convs, v[0], v[k]));
    }
    assert(convs[v[0] as int].timestamp == groups[g].last_activity);
}

/// Groups come latest activity first, and the conversations of each newest first.
pub proof fn law_groups_come_latest_first(
    convs: Seq<Conversation>,
    facts: Seq<ProjectFacts>,
    groups: Seq<ProjectGroup>,
)
    requires
        is_grouping(convs, facts, groups),
    ensures
        forall|g: int, h: int|
            0 <= g < h < groups.len() ==> (#[trigger] groups[g]).last_activity.instant() >= (
            #[trigger] groups[h]).last_activity.instant(),
        forall|g: int|
            0 <= g < groups.len() ==> newest_first(
                convs,
                (#[trigger] groups[g]).conversation_indices@,
            ),
        forall|g: int, a: int, b: int|
            #![trigger groups[g].conversation_indices@[a], groups[g].conversation_indices@[b]]
            0 <= g < groups.len() && 0 <= a < b < groups[g].conversation_indices@.len() ==> {
                let v = groups[g].conversation_indices@;
                let newer = convs[v[a] as int].timestamp.instant();
                let older = convs[v[b] as int].timestamp.instant();
                newer > older || newer == older && v[a] < v[b]
            },
        forall|g: int, h: int|
            0 <= g < h < groups.len() && (#[trigger] groups[g]).last_activity.instant() == (
            #[trigger] groups[h]).last_activity.instant() ==> groups[g].canonical_path is Some
                || groups[h].canonical_path is None,
{
    reveal(is_grouping);
    assert forall|g: int, a: int, b: int|
        #![trigger groups[g].conversation_indices@[a], groups[g].conversation_indices@[b]]
        0 <= g < groups.len() && 0 <= a < b < groups[g].conversation_indices@.len() implies {
        let v = groups[g].conversation_indices@;
        let newer = convs[v[a] as int].timestamp.instant();
        let older = convs[v[b] as int].timestamp.instant();
        newer > older || newer == older && v[a] < v[b]
    } by {
        let v = groups[g].conversation_indices@;
        assert(is_group(convs, facts, groups[g], first_of(convs, facts, groups[g])));
        assert(newer(convs, v[a], v[b]));
    }
    assert forall|g: int, h: int|
        0 <= g < h < groups.len() && (#[trigger] groups[g]).last_activity.instant() == (
        #[trigger] groups[h]).last_activity.instant() implies groups[g].canonical_path is Some
        || groups[h].canonical_path is None by {
        assert(group_before(convs, facts, groups[g], groups[h]));
    }
    assert forall|g: int, h: int| 0 <= g < h < groups.len() implies (
    #[trigger] groups[g]).last_activity.instant() >= (
    #[trigger] groups[h]).last_activity.instant() by {
        assert(group_before(convs, facts, groups[g], groups[h]));
    }
    assert forall|g: int| 0 <= g < groups.len() implies newest_first(
        convs,
        (#[trigger] groups[g]).conversation_indices@,
    ) by {
        assert(is_group(convs, facts, groups[g], first_of(convs, facts, groups[g])));
    }
}

/// Whether two keys name the same path, or both name none.
fn same_key(a: &Option<String>, b: &Option<String>) -> (r: bool)
    ensures
        r == (key_id(opt_text(*a)) == key_id(opt_text(*b))),
{
    match (a, b) {
        (Some(x), Some(y)) => same_path(x.as_str(), y.as_str()),
        (None, None) => true,
        _ => false,
    }
}

/// Whether `keys` are the keys of the conversations.
spec fn are_keys(
    convs: Seq<Conversation>,
    facts: Seq<ProjectFacts>,
    keys: Seq<Option<String>>,
) -> bool {
    &&& keys.len() == convs.len()
    &&& forall|i: int|
        0 <= i < convs.len() ==> opt_text(#[trigger] keys[i]) == spec_group_key(
            &convs[i],
            &facts[i],
        )
}

/// Whether one of the groups has the given key.
spec fn has_key(groups: Seq<ProjectGroup>, key: Option<PathId>) -> bool {
    exists|g: int|
        0 <= g < groups.len() && key_id(opt_text((#[trigger] groups[g]).canonical_path)) == key
}

/// The members of the group of conversation `first`, in the order of their indices.
fn members_of(
    convs: &[Conversation],
    facts: &[ProjectFacts],
    keys: &Vec<Option<String>>,
    first: usize,
) -> (r: Vec<usize>)
    requires
        facts@.len() == convs@.len(),
        first < convs@.len(),
        are_keys(convs@, facts@, keys@),
        forall|j: int|
            0 <= j < first ==> #[trigger] key_at(convs@, facts@, j) != key_at(
                convs@,
                facts@,
                first as int,
            ),
    ensures
        r@.len() > 0,
        forall|a: int, b: int| 0 <= a < b < r@.len() ==> #[trigger] r@[a] < #[trigger] r@[b],
        forall|a: int| 0 <= a < r@.len() ==> #[trigger] r@[a] < convs@.len(),
        forall|i: usize|
            0 <= i < convs@.len() ==> (#[trigger] r@.contains(i) <==> key_at(
                convs@,
                facts@,
                i as int,
            ) == key_at(convs@, facts@, first as int)),
{
    let mut out: Vec<usize> = Vec::new();
    for i in first..keys.len()
        invariant
            facts@.len() == convs@.len(),
            first < convs@.len(),
            are_keys(convs@, facts@, keys@),
            forall|j: int|
                0 <= j < first ==> #[trigger] key_at(convs@, facts@, j) != key_at(
                    convs@,
                    facts@,
                    first as int,
                ),
            i > first ==> out@.len() > 0,
            forall|a: int, b: int|
                0 <= a < b < out@.len() ==> #[trigger] out@[a] < #[trigger] out@[b],
            forall|a: int| 0 <= a < out@.len() ==> #[trigger] out@[a] < i,
            forall|k: usize|
                0 <= k < i ==> (#[trigger] out@.contains(k) <==> key_at(convs@, facts@, k as int)
                    == key_at(convs@, facts@, first as int)),
    {
        let ghost before = out@;
        if same_key(&keys[i], &keys[first]) {
            out.push(i);
            assert(out@[before.len() as int] == i);
        }
        assert forall|k: usize| 0 <= k < i + 1 implies (#[trigger] out@.contains(k) <==> key_at(
            convs@,
            facts@,
            k as int,
        ) == key_at(convs@, facts@, first as int)) by {
            if k < i {
                assert(before.contains(k) <==> key_at(convs@, facts@, k as int) == key_at(
                    convs@,
                    facts@,
                    first as int,
                ));
                if before.contains(k) {
                    let w = choose|w: int| 0 <= w < before.len() && before[w] == k;
                    assert(out@[w] == k);
                }
                if out@.contains(k) {
                    let w = choose|w: int| 0 <= w < out@.len() && out@[w] == k;
                    assert(before[w] == k);
                }
            } else {
                if before.contains(k) {
                    let w = choose|w: int| 0 <= w < before.len() && before[w] == k;
                    assert(before[w] < i);
                }
                if out@.contains(k) && out@ == before {
                    assert(before.contains(k));
                }
            }
        }
    }
    out
}

/// `members` put newest first.
fn sort_newest_first(convs: &[Conversation], members: Vec<usize>) -> (r: Vec<usize>)
    requires
        all_wf(convs@),
        forall|a: int, b: int|
            0 <= a < b < members@.len() ==> #[trigger] members@[a] < #[trigger] members@[b],
        forall|a: int| 0 <= a < members@.len() ==> #[trigger] members@[a] < convs@.len(),
    ensures
        r@.len() == members@.len(),
        newest_first(convs@, r@),
        forall|i: usize| #[trigger] r@.contains(i) <==> members@.contains(i),
{
    let ghost m = members@;
    let mut keys: Vec<i128> = Vec::new();
    for k in 0..members.len()
        invariant
            m == members@,
            all_wf(convs@),
            forall|a: int| 0 <= a < m.len() ==> #[trigger] m[a] < convs@.len(),
            keys@.len() == k,
            forall|a: int|
                0 <= a < k ==> #[trigger] keys@[a] == -convs@[m[a] as int].timestamp.instant(),
    {
        assert(convs@[m[k as int] as int].wf());
        keys.push(-convs[members[k]].timestamp.rank());
    }
    let order: Vec<usize> = order_by_key(keys.as_slice());
    proof {
        lemma_order_is_distinct(keys@, order@);
    }
    let out: Vec<usize> = rearrange(members, order.as_slice());
    proof {
        assert forall|a: int, b: int| 0 <= a < b < out@.len() implies newer(
            convs@,
            #[trigger] out@[a],
            #[trigger] out@[b],
        ) by {
            assert(comes_before(keys@, order@[a], order@[b]));
        }
        assert forall|i: usize| #[trigger] out@.contains(i) <==> m.contains(i) by {
            if out@.contains(i) {
                let w = choose|w: int| 0 <= w < out@.len() && out@[w] == i;
                assert(m[order@[w] as int] == i);
            }
            if m.contains(i) {
                let w = choose|w: int| 0 <= w < m.len() && m[w] == i;
                assert(order@.contains(w as usize));
                let u = choose|u: int| 0 <= u < order@.len() && order@[u] == w as usize;
                assert(out@[u] == i);
            }
        }
    }
    out
}

/// The providers of `members`, each once.
fn providers_of(convs: &[Conversation], members: &Vec<usize>) -> (r: Vec<ProviderKind>)
    requires
        forall|a: int| 0 <= a < members@.len() ==> #[trigger] members@[a] < convs@.len(),
    ensures
        r@.no_duplicates(),
        forall|p: ProviderKind|
            #[trigger] r@.contains(p) <==> exists|k: int|
                0 <= k < members@.len() && (#[trigger] convs@[members@[k] as int]).provider == p,
{
    let mut out: Vec<ProviderKind> = Vec::new();
    for k in 0..members.len()
        invariant
            forall|a: int| 0 <= a < members@.len() ==> #[trigger] members@[a] < convs@.len(),
            out@.no_duplicates(),
            forall|p: ProviderKind|
                #[trigger] out@.contains(p) <==> exists|j: int|
                    0 <= j < k && (#[trigger] convs@[members@[j] as int]).provider == p,
    {
        let p: ProviderKind = convs[members[k]].provider;
        let ghost before = out@;
        let mut seen: bool = false;
        for j in 0..out.len()
            invariant
                seen == exists|l: int| 0 <= l < j && #[trigger] out@[l] == p,
        {
            if out[j] == p {
                seen = true;
            }
        }
        if !seen {
            out.push(p);
            assert(out@[before.len() as int] == p);
        }
        proof {
            assert(out@.contains(p));
            assert forall|q: ProviderKind| #[trigger] out@.contains(q) <==> exists|j: int|
                0 <= j < k + 1 && (#[trigger] convs@[members@[j] as int]).provider == q by {
                if out@.contains(q) {
                    if q == p {
                        assert(convs@[members@[k as int] as int].provider == q);
                    } else {
                        let w = choose|w: int| 0 <= w < out@.len() && out@[w] == q;
                        assert(before[w] == q);
                        assert(before.contains(q));
                    }
                }
                if exists|j: int|
                    0 <= j < k + 1 && (#[trigger] convs@[members@[j] as int]).provider == q {
                    let j = choose|j: int|
                        0 <= j < k + 1 && (#[trigger] convs@[members@[j] as int]).provider == q;
                    if j < k {
                        assert(before.contains(q));
                        let w = choose|w: int| 0 <= w < before.len() && before[w] == q;
                        assert(out@[w] == q);
                    }
                }
            }
        }
    }
    out
}

/// The group of the key of conversation `first`.
fn build_group(
    convs: &[Conversation],
    facts: &[ProjectFacts],
    keys: &Vec<Option<String>>,
    first: usize,
) -> (r: ProjectGroup)
    requires
        all_wf(convs@),
        facts@.len() == convs@.len(),
        first < convs@.len(),
        are_keys(convs@, facts@, keys@),
        forall|j: int|
            0 <= j < first ==> #[trigger] key_at(convs@, facts@, j) != key_at(
                convs@,
                facts@,
                first as int,
            ),
    ensures
        is_group(convs@, facts@, r, first as int),
{
    let members: Vec<usize> = members_of(convs, facts, keys, first);
    let ghost m = members@;
    let indices: Vec<usize> = sort_newest_first(convs, members);
    proof {
        assert forall|i: int| 0 <= i < indices@.len() implies 0 <= #[trigger] indices@[i]
            < convs@.len() by {
            assert(indices@.contains(indices@[i]));
            assert(m.contains(indices@[i]));
        }
    }
    let providers: Vec<ProviderKind> = providers_of(convs, &indices);
    let last_activity: Timestamp = convs[indices[0]].timestamp;
    ProjectGroup {
        canonical_path: clone_opt(&keys[first]),
        display_name: display_name_for(&convs[first], &keys[first], &facts[first]),
        conversation_indices: indices,
        last_activity,
        providers,
    }
}

/// Bucket conversations by project path. Groups are sorted by `last_activity` descending;
/// within each group conversations are ordered newest first.
pub fn group_by_project_path(convs: &[Conversation], facts: &[ProjectFacts]) -> (r: Vec<
    ProjectGroup,
>)
    requires
        all_wf(convs@),
        facts@.len() == convs@.len(),
    ensures
        is_grouping(convs@, facts@, r@),
{
    let mut keys: Vec<Option<String>> = Vec::new();
    for i in 0..convs.len()
        invariant
            facts@.len() == convs@.len(),
            keys@.len() == i,
            forall|k: int|
                0 <= k < i ==> opt_text(#[trigger] keys@[k]) == spec_group_key(
                    &convs@[k],
                    &facts@[k],
                ),
    {
        keys.push(group_key(&convs[i], &facts[i]));
    }
    let mut groups: Vec<ProjectGroup> = Vec::new();
    let ghost mut firsts: Seq<int> = Seq::empty();
    for i in 0..convs.len()
        invariant
            all_wf(convs@),
            facts@.len() == convs@.len(),
            are_keys(convs@, facts@, keys@),
            firsts.len() == groups@.len(),
            forall|g: int|
                0 <= g < groups@.len() ==> is_group(
                    convs@,
                    facts@,
                    #[trigger] groups@[g],
                    firsts[g],
                ),
            forall|g: int| 0 <= g < firsts.len() ==> 0 <= #[trigger] firsts[g] < i,
            forall|g: int, h: int|
                0 <= g < h < firsts.len() ==> #[trigger] firsts[g] < #[trigger] firsts[h],
            forall|k: int|
                0 <= k < i ==> has_key(groups@, #[trigger] key_at(convs@, facts@, k)),
    {
        let mut known: bool = false;
        for g in 0..groups.len()
            invariant
                i < convs@.len(),
                are_keys(convs@, facts@, keys@),
                facts@.len() == convs@.len(),
                known == exists|h: int|
                    0 <= h < g && key_id(opt_text((#[trigger] groups@[h]).canonical_path))
                        == key_at(convs@, facts@, i as int),
        {
            if same_key(&groups[g].canonical_path, &keys[i]) {
                known = true;
            }
        }
        let ghost before = groups@;
        if !known {
            proof {
                assert forall|j: int| 0 <= j < i implies #[trigger] key_at(convs@, facts@, j)
                    != key_at(convs@, facts@, i as int) by {
                    let g = choose|g: int|
                        0 <= g < groups@.len() && key_id(
                            opt_text((#[trigger] groups@[g]).canonical_path),
                        ) == key_at(convs@, facts@, j);
                    assert(key_id(opt_text(groups@[g].canonical_path)) != key_at(
                        convs@,
                        facts@,
                        i as int,
                    ));
                }
            }
            groups.push(build_group(convs, facts, &keys, i));
            proof {
                firsts = firsts.push(i as int);
                assert(key_id(opt_text(groups@[before.len() as int].canonical_path)) == key_at(
                    convs@,
                    facts@,
                    i as int,
                ));
            }
        }
        proof {
            assert forall|k: int| 0 <= k < i + 1 implies has_key(
                groups@,
                #[trigger] key_at(convs@, facts@, k),
            ) by {
                if k < i {
                    let g = choose|g: int|
                        0 <= g < before.len() && key_id(
                            opt_text((#[trigger] before[g]).canonical_path),
                        ) == key_at(convs@, facts@, k);
                    assert(groups@[g] == before[g]);
                }
            }
        }
    }
    sort_groups(convs, facts, groups, Ghost(firsts))
}

/// Puts groups, listed in the order they were first seen in, into their order on the dashboard.
fn sort_groups(
    convs: &[Conversation],
    facts: &[ProjectFacts],
    groups: Vec<ProjectGroup>,
    Ghost(firsts): Ghost<Seq<int>>,
) -> (r: Vec<ProjectGroup>)
    requires
        all_wf(convs@),
        facts@.len() == convs@.len(),
        firsts.len() == groups@.len(),
        forall|g: int|
            0 <= g < groups@.len() ==> is_group(convs@, facts@, #[trigger] groups@[g], firsts[g]),
        forall|g: int, h: int|
            0 <= g < h < firsts.len() ==> #[trigger] firsts[g] < #[trigger] firsts[h],
        forall|k: int|
            0 <= k < convs@.len() ==> has_key(groups@, #[trigger] key_at(convs@, facts@, k)),
    ensures
        is_grouping(convs@, facts@, r@),
{
    let ghost gs = groups@;
    let count: usize = convs.len();
    let mut ranks: Vec<i128> = Vec::new();
    for g in 0..groups.len()
        invariant
            gs == groups@,
            all_wf(convs@),
            firsts.len() == gs.len(),
            forall|g: int|
                0 <= g < gs.len() ==> is_group(convs@, facts@, #[trigger] gs[g], firsts[g]),
            ranks@.len() == g,
            forall|a: int|
                0 <= a < g ==> #[trigger] ranks@[a] == -2 * gs[a].last_activity.instant() + (
                if gs[a].canonical_path is Some {
                    0int
                } else {
                    1int
                }),
    {
        assert(is_group(convs@, facts@, gs[g as int], firsts[g as int]));
        assert(convs@[gs[g as int].conversation_indices@[0] as int].wf());
        let base: i128 = -2 * groups[g].last_activity.rank();
        if groups[g].canonical_path.is_some() {
            ranks.push(base);
        } else {
            ranks.push(base + 1);
        }
    }
    let order: Vec<usize> = order_by_key(ranks.as_slice());
    proof {
        lemma_order_is_distinct(ranks@, order@);
    }
    let out: Vec<ProjectGroup> = rearrange(groups, order.as_slice());
    proof {
        reveal(is_grouping);
        let o = out@;
        assert forall|g: int| 0 <= g < o.len() implies is_group(
            convs@,
            facts@,
            #[trigger] o[g],
            first_of(convs@, facts@, o[g]),
        ) && first_of(convs@, facts@, o[g]) == firsts[order@[g] as int] by {
            assert(is_group(convs@, facts@, gs[order@[g] as int], firsts[order@[g] as int]));
            lemma_first_is_unique(
                convs@,
                facts@,
                gs[order@[g] as int],
                firsts[order@[g] as int],
            );
        }
        assert forall|i: usize| 0 <= i < convs@.len() implies #[trigger] is_listed(o, i) by {
            let k = i as int;
            let c = key_at(convs@, facts@, k);
            let h = choose|h: int|
                0 <= h < gs.len() && key_id(opt_text((#[trigger] gs[h]).canonical_path))
                    == key_at(convs@, facts@, k);
            assert(is_group(convs@, facts@, gs[h], firsts[h]));
            assert(gs[h].conversation_indices@.contains(i));
            assert(order@.contains(h as usize));
            let u = choose|u: int| 0 <= u < order@.len() && order@[u] == h as usize;
            assert(o[u] == gs[h]);
        }
        assert forall|g: int, h: int| 0 <= g < h < o.len() implies key_id(
            opt_text((#[trigger] o[g]).canonical_path),
        ) != key_id(opt_text((#[trigger] o[h]).canonical_path)) by {
            let a = order@[g] as int;
            let b = order@[h] as int;
            assert(is_group(convs@, facts@, gs[a], firsts[a]));
            assert(is_group(convs@, facts@, gs[b], firsts[b]));
            assert(a != b);
            if a < b {
                assert(firsts[a] < firsts[b]);
                assert(key_at(convs@, facts@, firsts[a]) != key_at(convs@, facts@, firsts[b]));
            } else {
                assert(firsts[b] < firsts[a]);
                assert(key_at(convs@, facts@, firsts[b]) != key_at(convs@, facts@, firsts[a]));
            }
        }
        assert forall|g: int, h: int| 0 <= g < h < o.len() implies group_before(
            convs@,
            facts@,
            #[trigger] o[g],
            #[trigger] o[h],
        ) by {
            assert(comes_before(ranks@, order@[g], order@[h]));
            let a = order@[g] as int;
            let b = order@[h] as int;
            assert(first_of(convs@, facts@, o[g]) == firsts[a]);
            assert(first_of(convs@, facts@, o[h]) == firsts[b]);
            if a < b {
                assert(firsts[a] < firsts[b]);
            }
        }
    }
    out
}

} // verus!
