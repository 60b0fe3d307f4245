//! What holds of the dashboard as a whole.

use crate::history::grouping::{is_grouping, ProjectGroup};
use crate::history::recency::{recency_keys, recency_order};
use crate::history::Conversation;
use crate::paths::PathId;
use crate::order::{comes_before, is_order, law_order_exists};
use crate::tui::keys::{
    quiet, ActionView, DialogMode, KeyCode, KeyModifiers, ListViewMode, PaneFocus,
};
use crate::tui::model::{
    groups_fit, group_paths, index_without, list_fits, AppView,
};
use crate::tui::rows::{
    group_id, group_rows, is_open, law_collapsed_rows_are_headers, law_rows_are_those_shown,
    rows_among, rows_of, Row,
};
use crate::tui::view_state::ViewStateView;
use vstd::prelude::*;

verus! {

/// Typing a character and erasing it again leaves the query and the cursor as they were.
pub proof fn law_erasing_undoes_typing(s: AppView, c: char)
    requires
        s.cursor_pos <= s.query.len(),
    ensures
        s.query_char_typed(c).query_char_erased() == s,
{
    assert(s.query.insert(s.cursor_pos as int, c).remove(s.cursor_pos as int) =~= s.query);
}

/// Deleting a word takes out the text between the start of the word and the cursor, and
/// nothing else.
pub proof fn law_deleting_a_word_keeps_the_rest(s: AppView, separators: Seq<bool>)
    requires
        s.cursor_pos <= s.query.len(),
    ensures
        ({
            let t = s.word_deleted(separators);
            &&& t.cursor_pos <= s.cursor_pos
            &&& t.query.take(t.cursor_pos as int) == s.query.take(t.cursor_pos as int)
            &&& t.query.skip(t.cursor_pos as int) == s.query.skip(s.cursor_pos as int)
            &&& s.cursor_pos > 0 ==> t.cursor_pos < s.cursor_pos
        }),
{
    lemma_word_start(separators, s.cursor_pos);
    let t = s.word_deleted(separators);
    assert(t.query.take(t.cursor_pos as int) =~= s.query.take(t.cursor_pos as int));
    assert(t.query.skip(t.cursor_pos as int) =~= s.query.skip(s.cursor_pos as int));
}

proof fn lemma_word_start(separators: Seq<bool>, pos: nat)
    ensures
        crate::tui::model::skip_separators(separators, pos) <= pos,
        crate::tui::model::skip_word(separators, pos) <= pos,
        crate::tui::model::word_start(separators, pos) <= pos,
        pos > 0 ==> crate::tui::model::word_start(separators, pos) < pos,
    decreases pos,
{
    let after = crate::tui::model::skip_separators(separators, pos);
    if pos > 0 {
        lemma_word_start(separators, (pos - 1) as nat);
    }
    if after < pos {
        lemma_word_start(separators, after);
    }
}

/// Hiding and showing the preview pane leaves everything but the focus as it was, and the
/// focus on the list.
pub proof fn law_toggling_the_preview_twice(s: AppView)
    requires
        s.wf(),
    ensures
        s.preview_toggled().preview_toggled() == s.list_focused(),
{
}

/// While conversations are loading, no key selects, resumes or deletes one.
pub proof fn law_no_action_while_loading(
    s: AppView,
    code: KeyCode,
    modifiers: KeyModifiers,
    viewport_height: nat,
    at: u64,
    groups: Seq<ProjectGroup>,
)
    requires
        s.is_loading(),
        s.viewing is None,
        s.dialog_mode == DialogMode::Closed,
    ensures
        ({
            let action = s.after_key(code, modifiers, viewport_height, at, groups).1.action;
            action is None || action == Some(ActionView::Quit)
        }),
        s.after_key(code, modifiers, viewport_height, at, groups).0.viewing is None,
{
}

/// In single file mode no key deletes, resumes or selects a conversation, and the viewer is
/// never left for a list.
pub proof fn law_single_file_mode_only_reads(
    s: AppView,
    code: KeyCode,
    modifiers: KeyModifiers,
    viewport_height: nat,
    at: u64,
    groups: Seq<ProjectGroup>,
)
    requires
        s.single_file_mode,
        s.viewing is Some,
        s.dialog_mode != DialogMode::ConfirmDelete,
    ensures
        ({
            let (t, outcome) = s.after_key(code, modifiers, viewport_height, at, groups);
            &&& outcome.action is None || outcome.action == Some(ActionView::Quit)
            &&& t.single_file_mode
            &&& t.viewing is Some
            &&& t.dialog_mode != DialogMode::ConfirmDelete
        }),
{
}

/// Whether an answer deletes a conversation.
pub open spec fn deletes(action: Option<ActionView>) -> bool {
    action matches Some(ActionView::Delete(_))
}

proof fn lemma_viewer_deletes_nothing(
    s: AppView,
    v: ViewStateView,
    code: KeyCode,
    control: bool,
    viewport_height: nat,
    at: u64,
)
    ensures
        !deletes(s.view_key(v, code, control, viewport_height, at).1.action),
{
}

proof fn lemma_list_deletes_nothing(
    s: AppView,
    code: KeyCode,
    control: bool,
    viewport_height: nat,
    groups: Seq<ProjectGroup>,
)
    ensures
        !deletes(s.list_key(code, control, viewport_height, groups).1.action),
{
    if s.is_loading() {
        assert(!deletes(s.loading_key(code, control).1.action));
    } else if s.view_mode == ListViewMode::Grouped && s.pane_focus == PaneFocus::Preview {
        assert(!deletes(s.preview_key(code, control).1.action));
    } else if !s.is_hotkey(code, control) {
        assert(!deletes(s.ready_key(code, control, viewport_height).1.action));
    }
}

/// A deletion needs two keys: nothing is deleted unless the confirmation was open.
pub proof fn law_deletion_is_confirmed(
    s: AppView,
    code: KeyCode,
    modifiers: KeyModifiers,
    viewport_height: nat,
    at: u64,
    groups: Seq<ProjectGroup>,
)
    requires
        deletes(s.after_key(code, modifiers, viewport_height, at, groups).1.action),
    ensures
        s.dialog_mode == DialogMode::ConfirmDelete,
        code == KeyCode::Char('y') || code == KeyCode::Char('Y'),
        s.after_key(code, modifiers, viewport_height, at, groups).1.action == Some(
            ActionView::Delete(s.selected_path()->0),
        ),
{
    if s.dialog_mode == DialogMode::Closed {
        match s.viewing {
            Some(v) => {
                lemma_viewer_deletes_nothing(s, v, code, modifiers.control, viewport_height, at);
            },
            None => {
                lemma_list_deletes_nothing(s, code, modifiers.control, viewport_height, groups);
            },
        }
    }
}

/// After a conversation was taken out, every other index points to the conversation that it
/// pointed to before.
pub proof fn law_removal_keeps_indices_pointing(s: AppView, gone: usize, i: usize)
    requires
        gone < s.conversations.len(),
        i < s.conversations.len(),
        i != gone,
    ensures
        s.taken_out(gone).conversations.len() == s.conversations.len() - 1,
        s.taken_out(gone).conversations[index_without(i, gone) as int] == s.conversations[i as int],
{
}

/// Once everything is loaded, no conversation stands before a newer one, and equally new ones
/// stand as they came in.
pub proof fn law_loaded_list_is_newest_first(
    s: AppView,
    groups: Seq<ProjectGroup>,
    i: int,
    j: int,
)
    requires
        s.wf(),
        s.fits_machine(),
        0 <= i < j < s.conversations.len(),
    ensures
        ({
            let convs = s.loaded(groups).conversations;
            &&& convs.len() == s.conversations.len()
            &&& convs[i].timestamp.instant() >= convs[j].timestamp.instant()
            &&& convs[i].timestamp.instant() == convs[j].timestamp.instant() ==> recency_order(
                s.conversations,
            )[i] < recency_order(s.conversations)[j]
            &&& convs[i].index == i as usize
        }),
{
    reveal(list_fits);
    let keys = recency_keys(s.conversations);
    let order = recency_order(s.conversations);
    law_order_exists(keys);
    assert(is_order(keys, order));
    assert(comes_before(keys, order[i], order[j]));
    let a = s.conversations[order[i] as int];
    let b = s.conversations[order[j] as int];
    assert(a.wf());
    assert(b.wf());
    assert(keys[order[i] as int] == -a.timestamp.instant());
    assert(keys[order[j] as int] == -b.timestamp.instant());
}

/// With all groups expanded and no query, every conversation of a group that has a path has a
/// row.
pub proof fn law_expanding_all_shows_all(s: AppView, group_idx: usize, conv_idx: usize)
    requires
        s.query.len() == 0,
        group_idx < s.groups.len() <= usize::MAX,
        group_id(s.groups[group_idx as int]) is Some,
        s.groups[group_idx as int].conversation_indices@.contains(conv_idx),
    ensures
        s.all_expanded().rows.contains(Row::Conversation { group_idx, conv_idx }),
{
    let expanded = s.expanded.union(group_paths(s.groups));
    let id = group_id(s.groups[group_idx as int])->0;
    assert(group_paths(s.groups).contains(id));
    law_rows_are_those_shown(s.groups, expanded, false, s.filtered);
}

/// With all groups collapsed and no query, the rows are the headers of the groups.
pub proof fn law_collapsing_all_leaves_headers(s: AppView)
    requires
        s.query.len() == 0,
        s.groups.len() <= usize::MAX,
    ensures
        s.all_collapsed().rows == Seq::new(
            s.groups.len(),
            |i: int| Row::Header { group_idx: i as usize },
        ),
{
    law_collapsed_rows_are_headers(s.groups, s.filtered);
}

/// Pressing `G` in the list goes to the other view, and pressing it again comes back: to the same
/// conversations, query and selection. The preview pane has `G` for itself while it has the
/// focus.
pub proof fn law_toggling_the_view_twice(
    s: AppView,
    viewport_height: nat,
    at: u64,
    first: Seq<ProjectGroup>,
    second: Seq<ProjectGroup>,
)
    requires
        s.viewing is None,
        s.dialog_mode == DialogMode::Closed,
        !s.is_loading(),
        s.pane_focus == PaneFocus::List,
    ensures
        ({
            let key = KeyCode::Char('G');
            let plain = KeyModifiers { control: false };
            let (once, told) = s.after_key(key, plain, viewport_height, at, first);
            let (twice, told_again) = once.after_key(key, plain, viewport_height, at, second);
            &&& told == quiet()
            &&& told_again == quiet()
            &&& once.view_mode != s.view_mode
            &&& twice.view_mode == s.view_mode
            &&& twice.conversations == s.conversations
            &&& twice.filtered == s.filtered
            &&& twice.selected == s.selected
            &&& twice.query == s.query
            &&& twice.cursor_pos == s.cursor_pos
            &&& s.view_mode == ListViewMode::Flat ==> twice == s.view_toggled(first).view_toggled(
                second,
            )
            &&& s.view_mode == ListViewMode::Grouped ==> twice == s.regrouped(second)
        }),
{
}

proof fn lemma_rows_among_alike(
    groups: Seq<ProjectGroup>,
    a: Set<PathId>,
    b: Set<PathId>,
    query_active: bool,
    filtered: Seq<usize>,
    n: nat,
)
    requires
        forall|k: int|
            0 <= k < n ==> is_open(#[trigger] groups[k], a, query_active) == is_open(
                groups[k],
                b,
                query_active,
            ),
    ensures
        rows_among(groups, a, query_active, filtered, n) == rows_among(
            groups,
            b,
            query_active,
            filtered,
            n,
        ),
    decreases n,
{
    if n > 0 {
        lemma_rows_among_alike(groups, a, b, query_active, filtered, (n - 1) as nat);
        assert(is_open(groups[n - 1], a, query_active) == is_open(groups[n - 1], b, query_active));
    }
}

/// The rows of the first groups come first, and each group's header stands right after them.
proof fn lemma_header_position(
    groups: Seq<ProjectGroup>,
    expanded: Set<PathId>,
    query_active: bool,
    filtered: Seq<usize>,
    n: nat,
    row: int,
    g: usize,
)
    requires
        n <= groups.len() <= usize::MAX,
        0 <= row < rows_among(groups, expanded, query_active, filtered, n).len(),
        rows_among(groups, expanded, query_active, filtered, n)[row] == (Row::Header {
            group_idx: g,
        }),
    ensures
        g < n,
        row == rows_among(groups, expanded, query_active, filtered, g as nat).len(),
        group_rows(groups, g as int, expanded, query_active, filtered).len() > 0,
    decreases n,
{
    let m = (n - 1) as nat;
    let before = rows_among(groups, expanded, query_active, filtered, m);
    let own = group_rows(groups, m as int, expanded, query_active, filtered);
    let all = rows_among(groups, expanded, query_active, filtered, n);
    assert(all == before + own);
    if row < before.len() {
        assert(before[row] == all[row]);
        lemma_header_position(groups, expanded, query_active, filtered, m, row, g);
    } else {
        assert(own[row - before.len()] == all[row]);
        assert(own[0] == (Row::Header { group_idx: m as usize }));
    }
}

proof fn lemma_rows_start_with(
    groups: Seq<ProjectGroup>,
    expanded: Set<PathId>,
    query_active: bool,
    filtered: Seq<usize>,
    g: nat,
    n: nat,
)
    requires
        g < n <= groups.len(),
        group_rows(groups, g as int, expanded, query_active, filtered).len() > 0,
    ensures
        ({
            let at = rows_among(groups, expanded, query_active, filtered, g).len() as int;
            let all = rows_among(groups, expanded, query_active, filtered, n);
            at < all.len() && all[at] == (Row::Header { group_idx: g as usize })
        }),
    decreases n,
{
    let m = (n - 1) as nat;
    let before = rows_among(groups, expanded, query_active, filtered, m);
    let own = group_rows(groups, m as int, expanded, query_active, filtered);
    assert(rows_among(groups, expanded, query_active, filtered, n) == before + own);
    if g < m {
        lemma_rows_start_with(groups, expanded, query_active, filtered, g, m);
    } else {
        assert(own[0] == (Row::Header { group_idx: m as usize }));
    }
}

/// On the header of a group, toggling the group twice leaves the dashboard as it was.
pub proof fn law_toggling_a_group_twice(s: AppView)
    requires
        s.wf(),
        s.fits_machine(),
        s.view_mode == ListViewMode::Grouped,
        s.header_selected(),
        s.rows == rows_of(s.groups, s.expanded, s.query.len() > 0, s.filtered),
    ensures
        s.group_toggled().group_toggled() == s,
        s.group_toggled().selected_group() == s.selected_group(),
{
    reveal(groups_fit);
    reveal(is_grouping);
    let g = s.selected_group()->0;
    let row = s.selected_row->0 as int;
    let active = s.query.len() > 0;
    match group_id(s.groups[g as int]) {
        Some(id) => {
            let t = s.group_toggled();
            lemma_header_position(
                s.groups,
                s.expanded,
                active,
                s.filtered,
                s.groups.len(),
                row,
                g,
            );
            assert forall|k: int| 0 <= k < g implies is_open(
                #[trigger] s.groups[k],
                s.expanded,
                active,
            ) == is_open(s.groups[k], t.expanded, active) by {
                assert(group_id(s.groups[k]) != group_id(s.groups[g as int]));
            }
            lemma_rows_among_alike(s.groups, s.expanded, t.expanded, active, s.filtered, g as nat);
            lemma_rows_start_with(
                s.groups,
                t.expanded,
                active,
                s.filtered,
                g as nat,
                s.groups.len(),
            );
            assert(t.selected_row == s.selected_row);
            assert(t.selected_group() == Some(g));
            let u = t.group_toggled();
            assert(u.expanded =~= s.expanded);
        },
        None => {},
    }
}

proof fn lemma_separators_are_skipped(separators: Seq<bool>, pos: nat)
    requires
        pos <= separators.len(),
    ensures
        ({
            let to = crate::tui::model::skip_separators(separators, pos);
            &&& to <= pos
            &&& forall|i: int| to <= i < pos ==> #[trigger] separators[i]
            &&& to > 0 ==> !separators[to - 1]
        }),
    decreases pos,
{
    if pos > 0 && separators[pos - 1] {
        lemma_separators_are_skipped(separators, (pos - 1) as nat);
    }
}

proof fn lemma_word_is_skipped(separators: Seq<bool>, pos: nat)
    requires
        pos <= separators.len(),
    ensures
        ({
            let to = crate::tui::model::skip_word(separators, pos);
            &&& to <= pos
            &&& forall|i: int| to <= i < pos ==> !(#[trigger] separators[i])
            &&& to > 0 ==> separators[to - 1]
        }),
    decreases pos,
{
    if pos > 0 && !separators[pos - 1] {
        lemma_word_is_skipped(separators, (pos - 1) as nat);
    }
}

/// What is taken out with a word is the separators left of the cursor and then the characters up
/// to the next separator, and no more.
pub proof fn law_deleting_a_word_stops_at_a_separator(s: AppView, separators: Seq<bool>, end: int)
    requires
        s.cursor_pos <= separators.len(),
        0 <= end <= s.cursor_pos,
        forall|i: int| end <= i < s.cursor_pos ==> #[trigger] separators[i],
        end > 0 ==> !separators[end - 1],
    ensures
        ({
            let start = s.word_deleted(separators).cursor_pos as int;
            &&& start <= end
            &&& forall|i: int| start <= i < end ==> !(#[trigger] separators[i])
            &&& start > 0 ==> separators[start - 1]
        }),
{
    lemma_separators_are_skipped(separators, s.cursor_pos);
    let to = crate::tui::model::skip_separators(separators, s.cursor_pos);
    if to < end {
        assert(separators[end - 1]);
    }
    if end < to {
        assert(separators[to - 1]);
    }
    lemma_word_is_skipped(separators, to);
}

} // verus!
