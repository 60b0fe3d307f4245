//! The visible rows of the grouped dashboard.

use crate::history::grouping::{key_id, ProjectGroup};
use crate::paths::{opt_text, PathId, PathSet};
use vstd::prelude::*;

verus! {

/// Visible row in the grouped dashboard. Built from the groups and the set of expanded ones
/// every time the list state changes; selection is an index into these rows.
#[derive(Clone, Copy, Debug, PartialEq, Eq, Structural)]
pub enum Row {
    /// Group header. `group_idx` is an index into the groups.
    Header { group_idx: usize },
    /// Conversation row. `conv_idx` is an index into the conversations.
    Conversation { group_idx: usize, conv_idx: usize },
}

/// The path of a group, apart from how it is spelled.
pub open spec fn group_id(g: ProjectGroup) -> Option<PathId> {
    key_id(opt_text(g.canonical_path))
}

/// The members of `s` that are allowed, in the order of `s`.
pub open spec fn retained(s: Seq<usize>, allowed: Seq<usize>) -> Seq<usize>
    decreases s.len(),
{
    if s.len() == 0 {
        Seq::empty()
    } else {
        let rest = retained(s.drop_last(), allowed);
        if allowed.contains(s.last()) {
            rest.push(s.last())
        } else {
            rest
        }
    }
}

/// The conversations of a group that can be shown: all of them, or, with a query, those that
/// passed the filter.
pub open spec fn visible_children(
    g: ProjectGroup,
    query_active: bool,
    filtered: Seq<usize>,
) -> Seq<usize> {
    if query_active {
        retained(g.conversation_indices@, filtered)
    } else {
        g.conversation_indices@
    }
}

/// Whether the conversations of a group are shown below its header.
pub open spec fn is_open(g: ProjectGroup, expanded: Set<PathId>, query_active: bool) -> bool {
    query_active || (group_id(g) matches Some(p) && expanded.contains(p))
}

pub open spec fn child_rows(gi: int, children: Seq<usize>) -> Seq<Row> {
    Seq::new(
        children.len(),
        |k: int| Row::Conversation { group_idx: gi as usize, conv_idx: children[k] },
    )
}

/// The rows of group `gi`: its header, and below it its conversations where it is open.
/// A query hides a group none of whose conversations passed the filter.
pub open spec fn group_rows(
    groups: Seq<ProjectGroup>,
    gi: int,
    expanded: Set<PathId>,
    query_active: bool,
    filtered: Seq<usize>,
) -> Seq<Row> {
    let children = visible_children(groups[gi], query_active, filtered);
    let header = seq![Row::Header { group_idx: gi as usize }];
    if query_active && children.len() == 0 {
        Seq::empty()
    } else if is_open(groups[gi], expanded, query_active) {
        header + child_rows(gi, children)
    } else {
        header
    }
}

/// The rows of the first `n` groups.
pub open spec fn rows_among(
    groups: Seq<ProjectGroup>,
    expanded: Set<PathId>,
    query_active: bool,
    filtered: Seq<usize>,
    n: nat,
) -> Seq<Row>
    decreases n,
{
    if n == 0 {
        Seq::empty()
    } else {
        rows_among(groups, expanded, query_active, filtered, (n - 1) as nat) + group_rows(
            groups,
            n - 1,
            expanded,
            query_active,
            filtered,
        )
    }
}

/// The rows of all the groups.
pub open spec fn rows_of(
    groups: Seq<ProjectGroup>,
    expanded: Set<PathId>,
    query_active: bool,
    filtered: Seq<usize>,
) -> Seq<Row> {
    rows_among(groups, expanded, query_active, filtered, groups.len())
}

/// Whether a row names a group, and a conversation of that group.
pub open spec fn row_fits(row: Row, groups: Seq<ProjectGroup>) -> bool {
    match row {
        Row::Header { group_idx } => group_idx < groups.len(),
        Row::Conversation { group_idx, conv_idx } => group_idx < groups.len()
            && groups[group_idx as int].conversation_indices@.contains(conv_idx),
    }
}

/// Whether a row belongs on the dashboard.
pub open spec fn row_shown(
    row: Row,
    groups: Seq<ProjectGroup>,
    expanded: Set<PathId>,
    query_active: bool,
    filtered: Seq<usize>,
) -> bool {
    match row {
        Row::Header { group_idx } => group_idx < groups.len() && (!query_active
            || visible_children(groups[group_idx as int], query_active, filtered).len() > 0),
        Row::Conversation { group_idx, conv_idx } => group_idx < groups.len() && is_open(
            groups[group_idx as int],
            expanded,
            query_active,
        ) && visible_children(groups[group_idx as int], query_active, filtered).contains(conv_idx),
    }
}

proof fn lemma_retained(s: Seq<usize>, allowed: Seq<usize>)
    ensures
        forall|x: usize|
            #[trigger] retained(s, allowed).contains(x) <==> s.contains(x) && allowed.contains(x),
    decreases s.len(),
{
    if s.len() > 0 {
        let front = s.drop_last();
        lemma_retained(front, allowed);
        let rest = retained(front, allowed);
        let r = retained(s, allowed);
        assert forall|x: usize| #[trigger] r.contains(x) <==> s.contains(x) && allowed.contains(
            x,
        ) by {
            assert(rest.contains(x) <==> front.contains(x) && allowed.contains(x));
            if front.contains(x) {
                let k = choose|k: int| 0 <= k < front.len() && front[k] == x;
                assert(s[k] == x);
            }
            if s.contains(x) {
                let k = choose|k: int| 0 <= k < s.len() && s[k] == x;
                if k < front.len() {
                    assert(front[k] == x);
                }
            }
            if rest.contains(x) {
                let k = choose|k: int| 0 <= k < rest.len() && rest[k] == x;
                assert(r[k] == x);
            }
            if allowed.contains(s.last()) {
                assert(r[rest.len() as int] == s.last());
            }
            if r.contains(x) {
                let k = choose|k: int| 0 <= k < r.len() && r[k] == x;
                if k < rest.len() {
                    assert(rest[k] == x);
                } else {
                    assert(s[s.len() - 1] == x);
                }
            }
        }
    }
}

proof fn lemma_rows_among(
    groups: Seq<ProjectGroup>,
    expanded: Set<PathId>,
    query_active: bool,
    filtered: Seq<usize>,
    n: nat,
)
    requires
        n <= groups.len() <= usize::MAX,
    ensures
        forall|row: Row|
            #[trigger] rows_among(groups, expanded, query_active, filtered, n).contains(row)
                <==> row_shown(row, groups, expanded, query_active, filtered) && (match row {
                Row::Header { group_idx } => group_idx < n,
                Row::Conversation { group_idx, .. } => group_idx < n,
            }),
    decreases n,
{
    if n > 0 {
        let m = (n - 1) as nat;
        lemma_rows_among(groups, expanded, query_active, filtered, m);
        let before = rows_among(groups, expanded, query_active, filtered, m);
        let own = group_rows(groups, m as int, expanded, query_active, filtered);
        let all = rows_among(groups, expanded, query_active, filtered, n);
        let children = visible_children(groups[m as int], query_active, filtered);
        assert(all == before + own);
        assert forall|row: Row| #[trigger] all.contains(row) <==> row_shown(
            row,
            groups,
            expanded,
            query_active,
            filtered,
        ) && (match row {
            Row::Header { group_idx } => group_idx < n,
            Row::Conversation { group_idx, .. } => group_idx < n,
        }) by {
            if before.contains(row) {
                let k = choose|k: int| 0 <= k < before.len() && before[k] == row;
                assert(all[k] == row);
            }
            if own.contains(row) {
                let k = choose|k: int| 0 <= k < own.len() && own[k] == row;
                assert(all[before.len() + k] == row);
            }
            if all.contains(row) {
                let k = choose|k: int| 0 <= k < all.len() && all[k] == row;
                if k < before.len() {
                    assert(before[k] == row);
                } else {
                    assert(own[k - before.len()] == row);
                    if k > before.len() {
                        assert(children[k - before.len() - 1] == row->conv_idx);
                    }
                }
            }
            match row {
                Row::Header { group_idx } => {
                    if group_idx == m && row_shown(row, groups, expanded, query_active, filtered) {
                        assert(own[0] == row);
                    }
                },
                Row::Conversation { group_idx, conv_idx } => {
                    if group_idx == m && row_shown(row, groups, expanded, query_active, filtered) {
                        let k = choose|k: int| 0 <= k < children.len() && children[k] == conv_idx;
                        assert(own[k + 1] == row);
                    }
                },
            }
        }
    }
}

/// The rows are the headers of the groups that are not hidden by a query, and the visible
/// conversations of the open groups.
pub proof fn law_rows_are_those_shown(
    groups: Seq<ProjectGroup>,
    expanded: Set<PathId>,
    query_active: bool,
    filtered: Seq<usize>,
)
    requires
        groups.len() <= usize::MAX,
    ensures
        forall|row: Row|
            #[trigger] rows_of(groups, expanded, query_active, filtered).contains(row)
                <==> row_shown(row, groups, expanded, query_active, filtered),
{
    lemma_rows_among(groups, expanded, query_active, filtered, groups.len());
}

/// With a query, exactly the conversations of the groups that passed the filter have a row.
pub proof fn law_query_shows_what_passed_the_filter(
    groups: Seq<ProjectGroup>,
    expanded: Set<PathId>,
    filtered: Seq<usize>,
    group_idx: usize,
    conv_idx: usize,
)
    requires
        group_idx < groups.len() <= usize::MAX,
    ensures
        rows_of(groups, expanded, true, filtered).contains(
            Row::Conversation { group_idx, conv_idx },
        ) <==> groups[group_idx as int].conversation_indices@.contains(conv_idx)
            && filtered.contains(conv_idx),
{
    law_rows_are_those_shown(groups, expanded, true, filtered);
    lemma_retained(groups[group_idx as int].conversation_indices@, filtered);
}

/// Every row names a group, and a conversation of that group.
pub proof fn law_rows_fit(
    groups: Seq<ProjectGroup>,
    expanded: Set<PathId>,
    query_active: bool,
    filtered: Seq<usize>,
)
    requires
        groups.len() <= usize::MAX,
    ensures
        forall|i: int|
            0 <= i < rows_of(groups, expanded, query_active, filtered).len() ==> row_fits(
                #[trigger] rows_of(groups, expanded, query_active, filtered)[i],
                groups,
            ),
{
    law_rows_are_those_shown(groups, expanded, query_active, filtered);
    let rows = rows_of(groups, expanded, query_active, filtered);
    assert forall|i: int| 0 <= i < rows.len() implies row_fits(#[trigger] rows[i], groups) by {
        assert(rows.contains(rows[i]));
        match rows[i] {
            Row::Header { group_idx } => {},
            Row::Conversation { group_idx, conv_idx } => {
                lemma_retained(groups[group_idx as int].conversation_indices@, filtered);
            },
        }
    }
}

proof fn lemma_closed_rows(groups: Seq<ProjectGroup>, filtered: Seq<usize>, n: nat)
    requires
        n <= groups.len() <= usize::MAX,
    ensures
        rows_among(groups, Set::empty(), false, filtered, n) == Seq::new(
            n,
            |i: int| Row::Header { group_idx: i as usize },
        ),
    decreases n,
{
    if n > 0 {
        lemma_closed_rows(groups, filtered, (n - 1) as nat);
    }
    assert(rows_among(groups, Set::empty(), false, filtered, n) =~= Seq::new(
        n,
        |i: int| Row::Header { group_idx: i as usize },
    ));
}

/// With all groups collapsed and no query, the rows are the headers of the groups.
pub proof fn law_collapsed_rows_are_headers(groups: Seq<ProjectGroup>, filtered: Seq<usize>)
    requires
        groups.len() <= usize::MAX,
    ensures
        rows_of(groups, Set::empty(), false, filtered) == Seq::new(
            groups.len(),
            |i: int| Row::Header { group_idx: i as usize },
        ),
{
    lemma_closed_rows(groups, filtered, groups.len());
}

/// For each of the `count` conversations, whether it passed the filter.
fn mask_of(filtered: &Vec<usize>, count: usize) -> (r: Vec<bool>)
    requires
        forall|k: int| 0 <= k < filtered@.len() ==> #[trigger] filtered@[k] < count,
    ensures
        r@.len() == count,
        forall|i: usize| i < count ==> #[trigger] r@[i as int] == filtered@.contains(i),
{
    let mut mask: Vec<bool> = Vec::new();
    for i in 0..count
        invariant
            mask@.len() == i,
            forall|k: int| 0 <= k < i ==> !#[trigger] mask@[k],
    {
        mask.push(false);
    }
    for k in 0..filtered.len()
        invariant
            mask@.len() == count,
            forall|k: int| 0 <= k < filtered@.len() ==> #[trigger] filtered@[k] < count,
            forall|i: usize|
                i < count ==> #[trigger] mask@[i as int] == filtered@.take(k as int).contains(i),
    {
        let ghost was = mask@;
        mask.set(filtered[k], true);
        proof {
            let a = filtered@.take(k as int);
            let b = filtered@.take(k + 1);
            assert forall|i: usize| i < count implies #[trigger] mask@[i as int] == b.contains(
                i,
            ) by {
                assert(was[i as int] == a.contains(i));
                if a.contains(i) {
                    let j = choose|j: int| 0 <= j < a.len() && a[j] == i;
                    assert(b[j] == i);
                }
                if b.contains(i) {
                    let j = choose|j: int| 0 <= j < b.len() && b[j] == i;
                    if j < k {
                        assert(a[j] == i);
                    }
                }
                assert(b[k as int] == filtered@[k as int]);
            }
        }
    }
    assert(filtered@.take(filtered@.len() as int) =~= filtered@);
    mask
}

/// Build the flat list of visible rows.
pub fn build_rows(
    groups: &Vec<ProjectGroup>,
    expanded: &PathSet,
    query_active: bool,
    filtered: &Vec<usize>,
    count: usize,
) -> (r: Vec<Row>)
    requires
        forall|k: int| 0 <= k < filtered@.len() ==> #[trigger] filtered@[k] < count,
    ensures
        r@ == rows_of(groups@, expanded@, query_active, filtered@),
{
    let mut rows: Vec<Row> = Vec::new();
    let mask: Vec<bool> = mask_of(filtered, count);
    for gi in 0..groups.len()
        invariant
            mask@.len() == count,
            forall|i: usize| i < count ==> #[trigger] mask@[i as int] == filtered@.contains(i),
            forall|k: int| 0 <= k < filtered@.len() ==> #[trigger] filtered@[k] < count,
            rows@ == rows_among(groups@, expanded@, query_active, filtered@, gi as nat),
    {
        let group: &ProjectGroup = &groups[gi];
        let ghost indices = group.conversation_indices@;
        let mut children: Vec<usize> = Vec::new();
        for k in 0..group.conversation_indices.len()
            invariant
                mask@.len() == count,
                forall|i: usize| i < count ==> #[trigger] mask@[i as int] == filtered@.contains(i),
                forall|k: int| 0 <= k < filtered@.len() ==> #[trigger] filtered@[k] < count,
                indices == group.conversation_indices@,
                children@ == (if query_active {
                    retained(indices.take(k as int), filtered@)
                } else {
                    indices.take(k as int)
                }),
        {
            let idx: usize = group.conversation_indices[k];
            assert(indices.take(k + 1).drop_last() =~= indices.take(k as int));
            assert(indices.take(k + 1).last() == idx);
            proof {
                if filtered@.contains(idx) {
                    let j = choose|j: int| 0 <= j < filtered@.len() && filtered@[j] == idx;
                    assert(filtered@[j] < count);
                }
            }
            if !query_active || (idx < mask.len() && mask[idx]) {
                children.push(idx);
            }
            assert(!query_active ==> children@ =~= indices.take(k + 1));
        }
        assert(indices.take(indices.len() as int) =~= indices);
        assert(children@ == visible_children(*group, query_active, filtered@));

        let ghost before = rows@;
        let ghost own = group_rows(groups@, gi as int, expanded@, query_active, filtered@);
        // Hide empty groups when filtering.
        if query_active && children.len() == 0 {
            assert(before + own =~= before);
        } else {
            rows.push(Row::Header { group_idx: gi });
            let open: bool = query_active || match &group.canonical_path {
                Some(p) => expanded.contains(p.as_str()),
                None => false,
            };
            assert(open == is_open(*group, expanded@, query_active));
            if open {
                for k in 0..children.len()
                    invariant
                        rows@ == before + seq![Row::Header { group_idx: gi }] + child_rows(
                            gi as int,
                            children@,
                        ).take(k as int),
                {
                    rows.push(Row::Conversation { group_idx: gi, conv_idx: children[k] });
                    assert(rows@ =~= before + seq![Row::Header { group_idx: gi }] + child_rows(
                        gi as int,
                        children@,
                    ).take(k + 1));
                }
                assert(child_rows(gi as int, children@).take(children@.len() as int)
                    =~= child_rows(gi as int, children@));
                assert(rows@ =~= before + own);
            } else {
                assert(rows@ =~= before + own);
            }
        }
    }
    rows
}

/// Without a query every group has its header, and the conversations of exactly those groups are
/// shown whose path is expanded; with a query exactly the groups with a conversation that passed
/// the filter are shown, with those conversations.
pub proof fn law_rows_tell_what_is_expanded(
    groups: Seq<ProjectGroup>,
    expanded: Set<PathId>,
    filtered: Seq<usize>,
    g: usize,
    c: usize,
)
    requires
        g < groups.len() <= usize::MAX,
    ensures
        ({
            let plain = rows_of(groups, expanded, false, filtered);
            let found = rows_of(groups, expanded, true, filtered);
            let group = groups[g as int];
            let header = Row::Header { group_idx: g };
            let child = Row::Conversation { group_idx: g, conv_idx: c };
            &&& plain.contains(header)
            &&& plain.contains(child) <==> group.canonical_path is Some && expanded.contains(
                crate::paths::path_id(group.canonical_path->0@),
            ) && group.conversation_indices@.contains(c)
            &&& found.contains(header) <==> exists|i: usize| #[trigger]
                group.conversation_indices@.contains(i) && filtered.contains(i)
            &&& found.contains(child) <==> group.conversation_indices@.contains(c)
                && filtered.contains(c)
        }),
{
    law_rows_are_those_shown(groups, expanded, false, filtered);
    law_rows_are_those_shown(groups, expanded, true, filtered);
    let v = groups[g as int].conversation_indices@;
    lemma_retained(v, filtered);
    let kept = retained(v, filtered);
    if kept.len() > 0 {
        assert(kept.contains(kept[0]));
        assert(v.contains(kept[0]) && filtered.contains(kept[0]));
    }
    if exists|i: usize| #[trigger] v.contains(i) && filtered.contains(i) {
        let i = choose|i: usize| #[trigger] v.contains(i) && filtered.contains(i);
        assert(kept.contains(i));
    }
}

proof fn lemma_rows_of_first_groups(
    groups: Seq<ProjectGroup>,
    expanded: Set<PathId>,
    query_active: bool,
    filtered: Seq<usize>,
    m: nat,
    n: nat,
)
    requires
        m <= n <= groups.len(),
    ensures
        ({
            let a = rows_among(groups, expanded, query_active, filtered, m);
            let b = rows_among(groups, expanded, query_active, filtered, n);
            a.len() <= b.len() && forall|i: int| 0 <= i < a.len() ==> #[trigger] b[i] == a[i]
        }),
    decreases n,
{
    if m < n {
        lemma_rows_of_first_groups(
            groups,
            expanded,
            query_active,
            filtered,
            m,
            (n - 1) as nat,
        );
    }
}

proof fn lemma_retained_is_filter(s: Seq<usize>, allowed: Seq<usize>)
    ensures
        retained(s, allowed) == s.filter(|i: usize| allowed.contains(i)),
    decreases s.len(),
{
    reveal(Seq::filter);
    if s.len() > 0 {
        lemma_retained_is_filter(s.drop_last(), allowed);
    } else {
        assert(retained(s, allowed) =~= s.filter(|i: usize| allowed.contains(i)));
    }
}

/// The rows of a group stand together: its header first, and below it its conversations in the
/// order of the group. The groups come in their order.
pub proof fn law_rows_come_in_order(
    groups: Seq<ProjectGroup>,
    expanded: Set<PathId>,
    query_active: bool,
    filtered: Seq<usize>,
    g: nat,
)
    requires
        g < groups.len() <= usize::MAX,
        rows_among(groups, expanded, query_active, filtered, g + 1).len() > rows_among(
            groups,
            expanded,
            query_active,
            filtered,
            g,
        ).len(),
    ensures
        ({
            let rows = rows_of(groups, expanded, query_active, filtered);
            let at = rows_among(groups, expanded, query_active, filtered, g).len() as int;
            let next = rows_among(groups, expanded, query_active, filtered, g + 1).len() as int;
            let v = groups[g as int].conversation_indices@;
            let shown = if query_active {
                v.filter(|i: usize| filtered.contains(i))
            } else {
                v
            };
            &&& at < next <= rows.len()
            &&& rows[at] == (Row::Header { group_idx: g as usize })
            &&& next == at + 1 || next == at + 1 + shown.len()
            &&& forall|k: int|
                0 <= k < next - at - 1 ==> #[trigger] rows[at + 1 + k] == (Row::Conversation {
                    group_idx: g as usize,
                    conv_idx: shown[k],
                })
        }),
{
    let rows = rows_of(groups, expanded, query_active, filtered);
    let before = rows_among(groups, expanded, query_active, filtered, g);
    let own = group_rows(groups, g as int, expanded, query_active, filtered);
    let after = rows_among(groups, expanded, query_active, filtered, g + 1);
    assert(after == before + own);
    lemma_rows_of_first_groups(groups, expanded, query_active, filtered, g + 1, groups.len());
    lemma_retained_is_filter(groups[g as int].conversation_indices@, filtered);
    let at = before.len() as int;
    assert(rows[at] == after[at]);
    assert(after[at] == own[0]);
    assert forall|k: int| 0 <= k < after.len() - at - 1 implies #[trigger] rows[at + 1 + k] == (
    Row::Conversation {
        group_idx: g as usize,
        conv_idx: visible_children(groups[g as int], query_active, filtered)[k],
    }) by {
        assert(rows[at + 1 + k] == after[at + 1 + k]);
        assert(after[at + 1 + k] == own[1 + k]);
    }
}

} // verus!
