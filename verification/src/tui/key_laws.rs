//! What each key of the dashboard is for.

use crate::history::grouping::ProjectGroup;
use crate::tui::keys::{
    ActionView, DialogMode, Effect, KeyCode, KeyModifiers, KeyOutcomeView, ListViewMode,
    LoadingState, PaneFocus,
};
use crate::tui::model::{groups_fit, list_fits, AppView};
use crate::tui::rows::Row;
use crate::tui::view_state::{ToolDisplayMode, ViewSearchMode, ViewStateView};
use vstd::prelude::*;

verus! {

/// Whether the list has the keys: nothing is being read, no dialog is open, and everything is
/// loaded.
pub open spec fn list_has_keys(s: AppView) -> bool {
    &&& s.viewing is None
    &&& s.dialog_mode == DialogMode::Closed
    &&& s.loading_state == LoadingState::Ready
    &&& s.view_mode == ListViewMode::Grouped ==> s.pane_focus == PaneFocus::List
}

/// Whether conversation `i` is the one that is shown as selected: in the flat list the entry of
/// the filtered ones at the selected position; in the grouped one that of the selected row, or,
/// on a header, the first of its group.
pub open spec fn is_shown_selected(s: AppView, i: usize) -> bool {
    match s.view_mode {
        ListViewMode::Flat => {
            &&& s.selected is Some
            &&& s.selected->0 < s.filtered.len()
            &&& s.filtered[s.selected->0 as int] == i
        },
        ListViewMode::Grouped => {
            &&& s.selected_row is Some
            &&& s.selected_row->0 < s.rows.len()
            &&& match s.rows[s.selected_row->0 as int] {
                Row::Conversation { conv_idx, .. } => conv_idx == i,
                Row::Header { group_idx } => {
                    &&& group_idx < s.groups.len()
                    &&& s.groups[group_idx as int].conversation_indices@.len() > 0
                    &&& s.groups[group_idx as int].conversation_indices@[0] == i
                },
            }
        },
    }
}

/// The conversation that is selected is the one that is shown as selected; in the flat list it is
/// one of the filtered ones, namely the entry at the selected position.
pub proof fn law_selection_is_what_is_shown(s: AppView, i: usize, k: usize)
    ensures
        s.selected_conversation() == Some(i) <==> is_shown_selected(s, i),
        is_shown_selected(s, i) ==> s.selected_path() == Some(s.conversations[i as int].path@),
        s.wf() && s.view_mode == ListViewMode::Flat && s.selected == Some(k)
            ==> s.selected_conversation() == Some(s.filtered[k as int]) && s.filtered.contains(
            s.filtered[k as int],
        ) && s.selected_path() == Some(s.conversations[s.filtered[k as int] as int].path@),
        s.wf() && s.view_mode == ListViewMode::Flat && s.selected is None
            ==> s.selected_conversation() is None && s.filtered.len() == 0,
{
    reveal(list_fits);
}

/// The path that an action is on.
pub open spec fn acted_on(action: Option<ActionView>) -> Option<Seq<char>> {
    match action {
        Some(ActionView::Select(p)) => Some(p),
        Some(ActionView::Delete(p)) => Some(p),
        Some(ActionView::Resume(p)) => Some(p),
        _ => None,
    }
}

#[verifier::rlimit(40)]
proof fn lemma_ready_acts_on_selection(
    s: AppView,
    code: KeyCode,
    control: bool,
    viewport_height: nat,
    path: Seq<char>,
)
    requires
        acted_on(s.ready_key(code, control, viewport_height).1.action) == Some(path),
    ensures
        s.selected_path() == Some(path),
{
    match code {
        KeyCode::Char(c) => {
            assert(s.ready_key(code, control, viewport_height) == s.list_char(
                c,
                control,
                viewport_height,
            ));
        },
        _ => {},
    }
}

#[verifier::rlimit(40)]
proof fn lemma_list_acts_on_selection(
    s: AppView,
    code: KeyCode,
    control: bool,
    viewport_height: nat,
    groups: Seq<ProjectGroup>,
    path: Seq<char>,
)
    requires
        acted_on(s.list_key(code, control, viewport_height, groups).1.action) == Some(path),
    ensures
        s.selected_path() == Some(path),
{
    if s.is_loading() {
        assert(acted_on(s.loading_key(code, control).1.action) is None);
    } else if s.view_mode == ListViewMode::Grouped && s.pane_focus == PaneFocus::Preview {
        assert(s.list_key(code, control, viewport_height, groups) == s.preview_key(
            code,
            control,
        ));
    } else if !s.is_hotkey(code, control) {
        lemma_ready_acts_on_selection(s, code, control, viewport_height, path);
    }
}

#[verifier::rlimit(40)]
proof fn lemma_viewer_acts_on_selection(
    s: AppView,
    v: ViewStateView,
    code: KeyCode,
    control: bool,
    viewport_height: nat,
    at: u64,
    path: Seq<char>,
)
    requires
        acted_on(s.view_key(v, code, control, viewport_height, at).1.action) == Some(path),
    ensures
        s.selected_path() == Some(path),
{
    if v.search_mode == ViewSearchMode::Typing {
        assert(acted_on(s.search_typing_key(v, code).1.action) is None);
    } else {
        match code {
            KeyCode::Char(c) => {
                assert(s.view_key(v, code, control, viewport_height, at) == s.view_char(
                    v,
                    c,
                    control,
                    viewport_height,
                    at,
                ));
            },
            _ => {},
        }
    }
}

#[verifier::rlimit(40)]
proof fn lemma_keys_act_on_selection(
    s: AppView,
    code: KeyCode,
    modifiers: KeyModifiers,
    viewport_height: nat,
    at: u64,
    groups: Seq<ProjectGroup>,
    path: Seq<char>,
)
    requires
        acted_on(s.after_key(code, modifiers, viewport_height, at, groups).1.action) == Some(path),
    ensures
        s.selected_path() == Some(path),
{
    let control = modifiers.control;
    match s.dialog_mode {
        DialogMode::ConfirmDelete => {},
        DialogMode::ExportMenu { selected } => {
            assert(acted_on(s.menu_key(code, selected, false).1.action) is None);
        },
        DialogMode::YankMenu { selected } => {
            assert(acted_on(s.menu_key(code, selected, true).1.action) is None);
        },
        DialogMode::Help => {},
        DialogMode::Closed => {
            match s.viewing {
                Some(v) => {
                    lemma_viewer_acts_on_selection(
                        s,
                        v,
                        code,
                        control,
                        viewport_height,
                        at,
                        path,
                    );
                },
                None => {
                    lemma_list_acts_on_selection(
                        s,
                        code,
                        control,
                        viewport_height,
                        groups,
                        path,
                    );
                },
            }
        },
    }
}

/// Whatever key asks for it and in whichever view, a conversation that is selected, resumed or
/// deleted is the one that is shown as selected: in the flat list the filtered one at the
/// selected position.
#[verifier::rlimit(40)]
pub proof fn law_actions_are_on_what_is_shown(
    s: AppView,
    code: KeyCode,
    modifiers: KeyModifiers,
    viewport_height: nat,
    at: u64,
    groups: Seq<ProjectGroup>,
    path: Seq<char>,
)
    requires
        acted_on(s.after_key(code, modifiers, viewport_height, at, groups).1.action) == Some(path),
    ensures
        exists|i: usize| #[trigger]
            is_shown_selected(s, i) && path == s.conversations[i as int].path@,
        s.view_mode == ListViewMode::Flat ==> s.selected is Some && s.selected->0
            < s.filtered.len() && path == s.conversations[s.filtered[s.selected->0 as int]
            as int].path@,
{
    lemma_keys_act_on_selection(s, code, modifiers, viewport_height, at, groups, path);
    let i = s.selected_conversation()->0;
    law_selection_is_what_is_shown(s, i, 0);
    assert(is_shown_selected(s, i));
}

/// Ctrl+R resumes the conversation that is shown as selected, Ctrl+O selects it, and Ctrl+X asks
/// before it is deleted; in the preview pane Enter selects it, too. Where the viewer is open,
/// Ctrl+R and Ctrl+X do the same. Once asked, `y` deletes it and `n` or Esc does not.
#[verifier::rlimit(40)]
pub proof fn law_keys_act_on_what_is_shown(
    s: AppView,
    viewport_height: nat,
    at: u64,
    groups: Seq<ProjectGroup>,
    i: usize,
)
    requires
        is_shown_selected(s, i),
    ensures
        ({
            let path = s.conversations[i as int].path@;
            let control = KeyModifiers { control: true };
            let plain = KeyModifiers { control: false };
            let r = s.after_key(KeyCode::Char('r'), control, viewport_height, at, groups);
            let o = s.after_key(KeyCode::Char('o'), control, viewport_height, at, groups);
            let x = s.after_key(KeyCode::Char('x'), control, viewport_height, at, groups);
            let enter = s.after_key(KeyCode::Enter, plain, viewport_height, at, groups);
            let yes = s.after_key(KeyCode::Char('y'), plain, viewport_height, at, groups);
            let no = s.after_key(KeyCode::Char('n'), plain, viewport_height, at, groups);
            let esc = s.after_key(KeyCode::Esc, plain, viewport_height, at, groups);
            let listing = s.viewing is None && s.dialog_mode == DialogMode::Closed
                && s.loading_state == LoadingState::Ready;
            let reading = s.viewing is Some && s.viewing->0.search_mode != ViewSearchMode::Typing
                && s.dialog_mode == DialogMode::Closed && !s.single_file_mode;
            &&& listing || reading ==> r.0 == s && r.1.action == Some(ActionView::Resume(path))
            &&& listing ==> o.0 == s && o.1.action == Some(ActionView::Select(path))
            &&& listing || reading ==> x.0 == (AppView {
                dialog_mode: DialogMode::ConfirmDelete,
                ..s
            }) && x.1.action is None
            &&& listing && s.view_mode == ListViewMode::Grouped && s.pane_focus
                == PaneFocus::Preview ==> enter.0 == s && enter.1.action == Some(
                ActionView::Select(path),
            )
            &&& s.dialog_mode == DialogMode::ConfirmDelete ==> {
                &&& yes.0 == (AppView { dialog_mode: DialogMode::Closed, ..s })
                &&& yes.1.action == Some(ActionView::Delete(path))
                &&& no.0 == (AppView { dialog_mode: DialogMode::Closed, ..s })
                &&& no.1.action is None
                &&& esc.0 == (AppView { dialog_mode: DialogMode::Closed, ..s })
                &&& esc.1.action is None
            }
        }),
{
    law_selection_is_what_is_shown(s, i, 0);
}

// Moving

/// A position moved up by `amount`, but not beyond the first.
pub open spec fn up_from(k: int, amount: int) -> usize {
    if k >= amount {
        (k - amount) as usize
    } else {
        0
    }
}

/// A position moved down by `amount`, but not beyond the last of `len`.
pub open spec fn down_from(k: int, amount: int, len: int) -> usize {
    if k + amount < len {
        (k + amount) as usize
    } else {
        (len - 1) as usize
    }
}

/// In the flat list the arrow keys and Ctrl+P and Ctrl+N move the selection by one, Page Up and
/// Page Down by ten, Ctrl+U and Ctrl+D by half a page, and Home and End to the first and the
/// last; the selection stays inside the list, and nothing else changes.
#[verifier::rlimit(40)]
pub proof fn law_moving_in_the_flat_list(
    s: AppView,
    viewport_height: nat,
    at: u64,
    groups: Seq<ProjectGroup>,
    k: usize,
)
    requires
        s.wf(),
        s.fits_machine(),
        list_has_keys(s),
        s.view_mode == ListViewMode::Flat,
        s.selected == Some(k),
    ensures
        ({
            let n = s.filtered.len() as int;
            let half = (viewport_height / 2) as int;
            let go = |code: KeyCode, control: bool|
                s.after_key(code, KeyModifiers { control }, viewport_height, at, groups);
            let to = |k: usize|
                (
                    AppView { selected: Some(k), ..s },
                    KeyOutcomeView { action: None, effect: Effect::Nothing },
                );
            &&& go(KeyCode::Up, false) == to(up_from(k as int, 1))
            &&& go(KeyCode::Down, false) == to(down_from(k as int, 1, n))
            &&& go(KeyCode::Char('p'), true) == to(up_from(k as int, 1))
            &&& go(KeyCode::Char('n'), true) == to(down_from(k as int, 1, n))
            &&& go(KeyCode::PageUp, false) == to(up_from(k as int, 10))
            &&& go(KeyCode::PageDown, false) == to(down_from(k as int, 10, n))
            &&& go(KeyCode::Char('u'), true) == to(up_from(k as int, half))
            &&& go(KeyCode::Char('d'), true) == to(down_from(k as int, half, n))
            &&& go(KeyCode::Home, false) == to(0)
            &&& go(KeyCode::End, false) == to((n - 1) as usize)
        }),
{
    reveal(list_fits);
}

/// In the grouped list the same keys move among the rows in the same way, and the preview starts
/// at its top for another row.
#[verifier::rlimit(40)]
pub proof fn law_moving_in_the_grouped_list(
    s: AppView,
    viewport_height: nat,
    at: u64,
    groups: Seq<ProjectGroup>,
    k: usize,
)
    requires
        s.wf(),
        s.fits_machine(),
        list_has_keys(s),
        s.view_mode == ListViewMode::Grouped,
        s.selected_row == Some(k),
    ensures
        ({
            let n = s.rows.len() as int;
            let half = (viewport_height / 2) as int;
            let go = |code: KeyCode, control: bool|
                s.after_key(code, KeyModifiers { control }, viewport_height, at, groups);
            let to = |k: usize|
                (
                    AppView { selected_row: Some(k), preview_scroll: 0, ..s },
                    KeyOutcomeView { action: None, effect: Effect::Nothing },
                );
            &&& k > 0 ==> go(KeyCode::Up, false) == to((k - 1) as usize)
            &&& k > 0 ==> go(KeyCode::Char('p'), true) == to((k - 1) as usize)
            &&& k == 0 ==> go(KeyCode::Up, false).0 == s
            &&& k + 1 < n ==> go(KeyCode::Down, false) == to((k + 1) as usize)
            &&& k + 1 < n ==> go(KeyCode::Char('n'), true) == to((k + 1) as usize)
            &&& k + 1 == n ==> go(KeyCode::Down, false).0 == s
            &&& go(KeyCode::PageUp, false) == to(up_from(k as int, 10))
            &&& go(KeyCode::PageDown, false) == to(down_from(k as int, 10, n))
            &&& go(KeyCode::Char('u'), true) == to(up_from(k as int, half))
            &&& go(KeyCode::Char('d'), true) == to(down_from(k as int, half, n))
            &&& go(KeyCode::Home, false) == to(0)
            &&& go(KeyCode::End, false) == to((n - 1) as usize)
        }),
{
    reveal(groups_fit);
}

/// While conversations are loading, the arrow keys move the selection by one and the page keys by
/// ten, in the flat list, and nothing else changes.
#[verifier::rlimit(40)]
pub proof fn law_moving_while_loading(
    s: AppView,
    viewport_height: nat,
    at: u64,
    groups: Seq<ProjectGroup>,
    k: usize,
)
    requires
        s.wf(),
        s.fits_machine(),
        s.viewing is None,
        s.dialog_mode == DialogMode::Closed,
        s.loading_state is Loading,
        s.selected == Some(k),
    ensures
        ({
            let n = s.filtered.len() as int;
            let go = |code: KeyCode, control: bool|
                s.after_key(code, KeyModifiers { control }, viewport_height, at, groups);
            let to = |k: usize|
                (
                    AppView { selected: Some(k), ..s },
                    KeyOutcomeView { action: None, effect: Effect::Nothing },
                );
            &&& go(KeyCode::Up, false) == to(up_from(k as int, 1))
            &&& go(KeyCode::Down, false) == to(down_from(k as int, 1, n))
            &&& go(KeyCode::Char('p'), true) == to(up_from(k as int, 1))
            &&& go(KeyCode::Char('n'), true) == to(down_from(k as int, 1, n))
            &&& go(KeyCode::PageUp, false) == to(up_from(k as int, 10))
            &&& go(KeyCode::PageDown, false) == to(down_from(k as int, 10, n))
        }),
{
    reveal(list_fits);
}

// The query

/// Whether a character is one of the list's own keys, and not typed.
pub open spec fn is_own_key(s: AppView, c: char) -> bool {
    ||| c == '?'
    ||| s.loading_state == LoadingState::Ready && c == 'G'
    ||| s.loading_state == LoadingState::Ready && s.view_mode == ListViewMode::Grouped && (c
        == '*' || c == 'P')
    ||| s.loading_state == LoadingState::Ready && s.view_mode == ListViewMode::Grouped && '1' <= c
        <= '9' && s.query.len() == 0
}

/// A character that is typed goes into the query at the cursor, and the cursor behind it; the
/// query is then searched for, or kept for when everything is loaded. Nothing else changes.
#[verifier::rlimit(40)]
pub proof fn law_typing_goes_into_the_query(
    s: AppView,
    c: char,
    viewport_height: nat,
    at: u64,
    groups: Seq<ProjectGroup>,
)
    requires
        s.wf(),
        list_has_keys(s) || s.loading_state is Loading && s.viewing is None && s.dialog_mode
            == DialogMode::Closed,
        !is_own_key(s, c),
    ensures
        s.after_key(
            KeyCode::Char(c),
            KeyModifiers { control: false },
            viewport_height,
            at,
            groups,
        ) == (
            AppView {
                query: s.query.take(s.cursor_pos as int).push(c) + s.query.skip(
                    s.cursor_pos as int,
                ),
                cursor_pos: s.cursor_pos + 1,
                ..s
            },
            KeyOutcomeView {
                action: None,
                effect: if s.loading_state == LoadingState::Ready {
                    Effect::Search
                } else {
                    Effect::RefreshQueryWords
                },
            },
        ),
{
    let p = s.cursor_pos as int;
    assert(s.query.insert(p, c) =~= s.query.take(p).push(c) + s.query.skip(p));
}

/// Backspace takes out the character before the cursor and Delete the one at it, where there is
/// one, and only then the query is searched for again; the left and right arrows move the cursor
/// by one inside the query; Ctrl+W asks for the word before the cursor to be taken out.
#[verifier::rlimit(40)]
pub proof fn law_editing_the_query(
    s: AppView,
    viewport_height: nat,
    at: u64,
    groups: Seq<ProjectGroup>,
)
    requires
        s.wf(),
        list_has_keys(s) || s.loading_state is Loading && s.viewing is None && s.dialog_mode
            == DialogMode::Closed,
    ensures
        ({
            let p = s.cursor_pos as int;
            let n = s.query.len() as int;
            let go = |code: KeyCode, control: bool|
                s.after_key(code, KeyModifiers { control }, viewport_height, at, groups);
            let nothing = KeyOutcomeView { action: None, effect: Effect::Nothing };
            let searching = KeyOutcomeView {
                action: None,
                effect: if s.loading_state == LoadingState::Ready {
                    Effect::Search
                } else {
                    Effect::RefreshQueryWords
                },
            };
            let to_preview = s.loading_state == LoadingState::Ready && s.view_mode
                == ListViewMode::Grouped && s.preview_visible && n == 0;
            &&& p > 0 ==> go(KeyCode::Backspace, false) == (
                AppView {
                    query: s.query.take(p - 1) + s.query.skip(p),
                    cursor_pos: (p - 1) as nat,
                    ..s
                },
                searching,
            )
            &&& p == 0 ==> go(KeyCode::Backspace, false) == (s, nothing)
            &&& p < n ==> go(KeyCode::Delete, false) == (
                AppView { query: s.query.take(p) + s.query.skip(p + 1), ..s },
                searching,
            )
            &&& p == n ==> go(KeyCode::Delete, false) == (s, nothing)
            &&& p > 0 ==> go(KeyCode::Left, false) == (
                AppView { cursor_pos: (p - 1) as nat, ..s },
                nothing,
            )
            &&& p == 0 ==> go(KeyCode::Left, false) == (s, nothing)
            &&& p < n ==> go(KeyCode::Right, false) == (
                AppView { cursor_pos: (p + 1) as nat, ..s },
                nothing,
            )
            &&& p == n && !to_preview ==> go(KeyCode::Right, false) == (s, nothing)
            &&& to_preview ==> go(KeyCode::Right, false) == (
                AppView { pane_focus: PaneFocus::Preview, ..s },
                nothing,
            )
            &&& go(KeyCode::Char('w'), true) == (
                s,
                KeyOutcomeView { action: None, effect: Effect::DeleteWord },
            )
            &&& go(KeyCode::Char('?'), false) == (
                AppView { dialog_mode: DialogMode::Help, ..s },
                nothing,
            )
            &&& go(KeyCode::Esc, false) == (
                s,
                KeyOutcomeView { action: Some(ActionView::Quit), effect: Effect::Nothing },
            )
            &&& go(KeyCode::Char('c'), true) == (
                s,
                KeyOutcomeView { action: Some(ActionView::Quit), effect: Effect::Nothing },
            )
        }),
{
    let p = s.cursor_pos as int;
    if p > 0 {
        assert(s.query.remove(p - 1) =~= s.query.take(p - 1) + s.query.skip(p));
    }
    if p < s.query.len() {
        assert(s.query.remove(p) =~= s.query.take(p) + s.query.skip(p + 1));
    }
}

// Groups and panes

/// `G` goes to the other view and leaves the conversations, the filter, the query and the flat
/// selection as they are; `P` shows or hides the preview pane, and hiding it gives the focus to
/// the list; in the grouped list Shift+Tab collapses all groups and `*` expands every group that
/// has a path; these leave the conversations and the query as they are, too.
#[verifier::rlimit(40)]
pub proof fn law_hotkeys(
    s: AppView,
    viewport_height: nat,
    at: u64,
    groups: Seq<ProjectGroup>,
    g: int,
)
    requires
        list_has_keys(s),
        0 <= g < s.groups.len(),
    ensures
        ({
            let go = |code: KeyCode|
                s.after_key(
                    code,
                    KeyModifiers { control: false },
                    viewport_height,
                    at,
                    groups,
                ).0;
            let toggled = go(KeyCode::Char('G'));
            let pane = go(KeyCode::Char('P'));
            let closed = go(KeyCode::BackTab);
            let opened = go(KeyCode::Char('*'));
            let path = crate::paths::opt_text(s.groups[g].canonical_path);
            &&& (toggled.view_mode == ListViewMode::Flat) != (s.view_mode == ListViewMode::Flat)
            &&& toggled.conversations == s.conversations
            &&& toggled.filtered == s.filtered
            &&& toggled.selected == s.selected
            &&& toggled.query == s.query
            &&& s.view_mode == ListViewMode::Grouped ==> toggled == (AppView {
                view_mode: ListViewMode::Flat,
                ..s
            })
            &&& s.view_mode == ListViewMode::Flat ==> toggled.groups == groups
            &&& s.view_mode == ListViewMode::Grouped ==> {
                &&& pane == (AppView {
                    preview_visible: !s.preview_visible,
                    pane_focus: PaneFocus::List,
                    ..s
                })
                &&& forall|id: crate::paths::PathId| !#[trigger] closed.expanded.contains(id)
                &&& path is Some ==> opened.expanded.contains(crate::paths::path_id(path->0))
                &&& forall|id: crate::paths::PathId|
                    s.expanded.contains(id) ==> #[trigger] opened.expanded.contains(id)
                &&& closed.conversations == s.conversations && opened.conversations
                    == s.conversations
                &&& closed.filtered == s.filtered && opened.filtered == s.filtered
                &&& closed.groups == s.groups && opened.groups == s.groups
                &&& closed.query == s.query && opened.query == s.query
            }
        }),
{
    let path = crate::paths::opt_text(s.groups[g].canonical_path);
    if path is Some {
        let id = crate::paths::path_id(path->0);
        assert(crate::tui::rows::group_id(s.groups[g]) == Some(id));
        assert(crate::tui::model::group_paths(s.groups).contains(id));
    }
}

/// Tab expands the group of the selected row, or collapses it where it was expanded, and no
/// other group; a group without a path stays as it is.
#[verifier::rlimit(40)]
pub proof fn law_tab_toggles_the_selected_group(
    s: AppView,
    viewport_height: nat,
    at: u64,
    groups: Seq<ProjectGroup>,
    g: usize,
)
    requires
        list_has_keys(s),
        s.view_mode == ListViewMode::Grouped,
        s.selected_row is Some,
        s.selected_row->0 < s.rows.len(),
        g < s.groups.len(),
        s.rows[s.selected_row->0 as int] == (Row::Header { group_idx: g }) || (
        s.rows[s.selected_row->0 as int] matches Row::Conversation { group_idx, .. } && group_idx
            == g),
    ensures
        ({
            let t = s.after_key(
                KeyCode::Tab,
                KeyModifiers { control: false },
                viewport_height,
                at,
                groups,
            ).0;
            &&& s.groups[g as int].canonical_path is None ==> t == s
            &&& s.groups[g as int].canonical_path matches Some(p) ==> {
                let own = crate::paths::path_id(p@);
                &&& t.expanded.contains(own) != s.expanded.contains(own)
                &&& forall|id: crate::paths::PathId|
                    id != own ==> (#[trigger] t.expanded.contains(id) <==> s.expanded.contains(
                        id,
                    ))
            }
            &&& t.conversations == s.conversations && t.filtered == s.filtered && t.groups
                == s.groups && t.query == s.query && t.selected == s.selected
        }),
{
}

/// While the preview pane has the focus, no key but those that leave it changes anything but how
/// far it is scrolled: `j`, `k` and the arrows scroll by a line, the page keys by a page and
/// Ctrl+D and Ctrl+U by half a page, `g` to the top and `G` to the bottom, and never beyond the
/// text; Esc, the left arrow and `h` give the focus back to the list.
#[verifier::rlimit(40)]
pub proof fn law_keys_of_the_preview_pane(
    s: AppView,
    viewport_height: nat,
    at: u64,
    groups: Seq<ProjectGroup>,
)
    requires
        s.viewing is None,
        s.dialog_mode == DialogMode::Closed,
        s.loading_state == LoadingState::Ready,
        s.view_mode == ListViewMode::Grouped,
        s.pane_focus == PaneFocus::Preview,
    ensures
        ({
            let lines = match s.preview {
                Some((_, shown)) => shown.len() as int,
                None => 0,
            };
            let height = s.preview_viewport_height as int;
            let page = if height == 0 {
                1
            } else {
                height
            };
            let bottom = if lines >= height {
                lines - height
            } else {
                0
            };
            let top = s.preview_scroll as int;
            let go = |code: KeyCode, control: bool|
                s.after_key(code, KeyModifiers { control }, viewport_height, at, groups);
            let at_line = |line: int|
                (
                    AppView { preview_scroll: line as nat, ..s },
                    KeyOutcomeView { action: None, effect: Effect::Nothing },
                );
            let listed = (
                AppView { pane_focus: PaneFocus::List, ..s },
                KeyOutcomeView { action: None, effect: Effect::Nothing },
            );
            let down = |n: int|
                at_line(
                    if top + n <= bottom {
                        top + n
                    } else {
                        bottom
                    },
                );
            let up = |n: int|
                at_line(
                    if top >= n {
                        top - n
                    } else {
                        0
                    },
                );
            &&& go(KeyCode::Down, false) == down(1)
            &&& go(KeyCode::Char('j'), false) == down(1)
            &&& go(KeyCode::Up, false) == up(1)
            &&& go(KeyCode::Char('k'), false) == up(1)
            &&& go(KeyCode::PageDown, false) == down(page)
            &&& go(KeyCode::PageUp, false) == up(page)
            &&& go(KeyCode::Char('d'), true) == down(page / 2)
            &&& go(KeyCode::Char('u'), true) == up(page / 2)
            &&& go(KeyCode::Char('g'), false) == at_line(0)
            &&& go(KeyCode::Char('G'), false) == at_line(bottom)
            &&& go(KeyCode::Esc, false) == listed
            &&& go(KeyCode::Left, false) == listed
            &&& go(KeyCode::Char('h'), false) == listed
            &&& forall|code: KeyCode, control: bool|
                (#[trigger] go(code, control)).0.query == s.query && go(code, control).0.filtered
                    == s.filtered && go(code, control).0.selected_row == s.selected_row
                    && go(code, control).0.conversations == s.conversations
        }),
{
}

// Dialogs

/// In the export and the yank menu the digits choose the option they number and Enter the one
/// that is selected, for a file or for the clipboard; the arrows and `k` and `j` move the
/// selection inside the menu; Esc closes it. Nothing else changes.
#[verifier::rlimit(40)]
pub proof fn law_keys_of_the_menus(
    s: AppView,
    viewport_height: nat,
    at: u64,
    groups: Seq<ProjectGroup>,
    selected: usize,
    is_yank: bool,
)
    requires
        selected < 4,
        s.dialog_mode == (if is_yank {
            DialogMode::YankMenu { selected }
        } else {
            DialogMode::ExportMenu { selected }
        }),
    ensures
        ({
            let go = |code: KeyCode|
                s.after_key(code, KeyModifiers { control: false }, viewport_height, at, groups);
            let closed = AppView { dialog_mode: DialogMode::Closed, ..s };
            let nothing = KeyOutcomeView { action: None, effect: Effect::Nothing };
            let chosen = |option: usize|
                (
                    closed,
                    KeyOutcomeView {
                        action: None,
                        effect: Effect::Export { option, to_clipboard: is_yank },
                    },
                );
            let moved = |to: usize|
                (
                    AppView {
                        dialog_mode: if is_yank {
                            DialogMode::YankMenu { selected: to }
                        } else {
                            DialogMode::ExportMenu { selected: to }
                        },
                        ..s
                    },
                    nothing,
                );
            let up: usize = if selected > 0 {
                (selected - 1) as usize
            } else {
                0
            };
            let down: usize = if selected < 3 {
                (selected + 1) as usize
            } else {
                3
            };
            &&& go(KeyCode::Char('1')) == chosen(0)
            &&& go(KeyCode::Char('2')) == chosen(1)
            &&& go(KeyCode::Char('3')) == chosen(2)
            &&& go(KeyCode::Char('4')) == chosen(3)
            &&& go(KeyCode::Enter) == chosen(selected)
            &&& go(KeyCode::Up) == moved(up)
            &&& go(KeyCode::Char('k')) == moved(up)
            &&& go(KeyCode::Down) == moved(down)
            &&& go(KeyCode::Char('j')) == moved(down)
            &&& go(KeyCode::Esc) == (closed, nothing)
        }),
{
}

/// While a dialog is open, a key changes nothing but the dialog.
#[verifier::rlimit(40)]
pub proof fn law_dialogs_keep_the_rest(
    s: AppView,
    code: KeyCode,
    modifiers: KeyModifiers,
    viewport_height: nat,
    at: u64,
    groups: Seq<ProjectGroup>,
)
    requires
        s.dialog_mode != DialogMode::Closed,
    ensures
        ({
            let t = s.after_key(code, modifiers, viewport_height, at, groups).0;
            &&& t == (AppView { dialog_mode: t.dialog_mode, ..s })
            &&& s.dialog_mode == DialogMode::Help && (code == KeyCode::Esc || code
                == KeyCode::Char('?') || code == KeyCode::Char('q')) ==> t.dialog_mode
                == DialogMode::Closed
        }),
{
}

// The viewer

/// The line at the top of the last full page.
pub open spec fn max_line(v: ViewStateView, height: int) -> int {
    let lines = v.rendered_lines.len() as int;
    if lines >= height {
        lines - height
    } else {
        0
    }
}

/// The line at the top of the page `n` lines further down, but not beyond the last full page.
pub open spec fn down_to(v: ViewStateView, n: int, height: int) -> int {
    let bottom = max_line(v, height);
    if v.scroll_offset + n <= bottom {
        v.scroll_offset + n
    } else {
        bottom
    }
}

/// The line at the top of the page `n` lines further up, but not beyond the first.
pub open spec fn up_to(v: ViewStateView, n: int) -> int {
    if v.scroll_offset >= n {
        v.scroll_offset - n
    } else {
        0
    }
}

/// The dashboard with another line at the top of the page that is read, and nothing else changed.
pub open spec fn scrolled(s: AppView, v: ViewStateView, line: int) -> AppView {
    AppView { viewing: Some(ViewStateView { scroll_offset: line as nat, ..v }), ..s }
}

/// In the viewer the arrows and `j` and `k` scroll by a line, and never beyond the text. Nothing
/// else changes.
#[verifier::rlimit(40)]
pub proof fn law_scrolling_by_lines(
    s: AppView,
    v: ViewStateView,
    viewport_height: nat,
    at: u64,
    groups: Seq<ProjectGroup>,
)
    requires
        s.viewing == Some(v),
        v.wf(),
        s.dialog_mode == DialogMode::Closed,
        v.search_mode != ViewSearchMode::Typing,
    ensures
        ({
            let go = |code: KeyCode, control: bool|
                s.after_key(code, KeyModifiers { control }, viewport_height, at, groups);
            let quiet = KeyOutcomeView { action: None, effect: Effect::Nothing };
            let below = scrolled(s, v, down_to(v, 1, viewport_height as int));
            &&& go(KeyCode::Down, false) == (below, quiet)
            &&& go(KeyCode::Char('j'), false) == (below, quiet)
            &&& go(KeyCode::Up, false) == (scrolled(s, v, up_to(v, 1)), quiet)
            &&& go(KeyCode::Char('k'), false) == (scrolled(s, v, up_to(v, 1)), quiet)
        }),
{
}

/// In the viewer `d` and `u`, with or without Ctrl, scroll by half a page, and the page keys by a
/// page. Nothing else changes.
#[verifier::rlimit(40)]
pub proof fn law_scrolling_by_pages(
    s: AppView,
    v: ViewStateView,
    viewport_height: nat,
    at: u64,
    groups: Seq<ProjectGroup>,
)
    requires
        s.viewing == Some(v),
        v.wf(),
        s.dialog_mode == DialogMode::Closed,
        v.search_mode != ViewSearchMode::Typing,
    ensures
        ({
            let go = |code: KeyCode, control: bool|
                s.after_key(code, KeyModifiers { control }, viewport_height, at, groups);
            let quiet = KeyOutcomeView { action: None, effect: Effect::Nothing };
            let page = viewport_height as int;
            let half_below = scrolled(s, v, down_to(v, page / 2, page));
            let half_above = scrolled(s, v, up_to(v, page / 2));
            let page_below = scrolled(s, v, down_to(v, page, page));
            let page_above = scrolled(s, v, up_to(v, page));
            &&& go(KeyCode::Char('d'), false) == (half_below, quiet)
            &&& go(KeyCode::Char('d'), true) == (half_below, quiet)
            &&& go(KeyCode::Char('u'), false) == (half_above, quiet)
            &&& go(KeyCode::Char('u'), true) == (half_above, quiet)
            &&& go(KeyCode::PageDown, false) == (page_below, quiet)
            &&& go(KeyCode::PageUp, false) == (page_above, quiet)
        }),
{
}

/// In the viewer `g` and Home go to the top and `G` and End to the last full page. Nothing else
/// changes.
#[verifier::rlimit(40)]
pub proof fn law_going_to_the_ends(
    s: AppView,
    v: ViewStateView,
    viewport_height: nat,
    at: u64,
    groups: Seq<ProjectGroup>,
)
    requires
        s.viewing == Some(v),
        v.wf(),
        s.dialog_mode == DialogMode::Closed,
        v.search_mode != ViewSearchMode::Typing,
    ensures
        ({
            let go = |code: KeyCode, control: bool|
                s.after_key(code, KeyModifiers { control }, viewport_height, at, groups);
            let quiet = KeyOutcomeView { action: None, effect: Effect::Nothing };
            let bottom = scrolled(s, v, max_line(v, viewport_height as int));
            &&& go(KeyCode::Char('g'), false) == (scrolled(s, v, 0), quiet)
            &&& go(KeyCode::Home, false) == (scrolled(s, v, 0), quiet)
            &&& go(KeyCode::Char('G'), false) == (bottom, quiet)
            &&& go(KeyCode::End, false) == (bottom, quiet)
        }),
{
}

/// In the viewer `t` cycles the display of tools, `T` shows or hides thinking and `i` the times:
/// each changes that one setting, for this conversation and the next, and has the conversation
/// rendered again.
#[verifier::rlimit(40)]
pub proof fn law_toggles_of_the_viewer(
    s: AppView,
    v: ViewStateView,
    viewport_height: nat,
    at: u64,
    groups: Seq<ProjectGroup>,
)
    requires
        s.viewing == Some(v),
        s.dialog_mode == DialogMode::Closed,
        v.search_mode != ViewSearchMode::Typing,
    ensures
        ({
            let go = |c: char|
                s.after_key(
                    KeyCode::Char(c),
                    KeyModifiers { control: false },
                    viewport_height,
                    at,
                    groups,
                );
            let again = KeyOutcomeView { action: None, effect: Effect::ReRender };
            let next = match v.tool_display {
                ToolDisplayMode::Hidden => ToolDisplayMode::Truncated,
                ToolDisplayMode::Truncated => ToolDisplayMode::Full,
                ToolDisplayMode::Full => ToolDisplayMode::Hidden,
            };
            &&& go('t') == (
                AppView {
                    tool_display: next,
                    viewing: Some(ViewStateView { tool_display: next, ..v }),
                    ..s
                },
                again,
            )
            &&& go('T') == (
                AppView {
                    show_thinking: !v.show_thinking,
                    viewing: Some(ViewStateView { show_thinking: !v.show_thinking, ..v }),
                    ..s
                },
                again,
            )
            &&& go('i') == (
                AppView {
                    show_timing: !v.show_timing,
                    viewing: Some(ViewStateView { show_timing: !v.show_timing, ..v }),
                    ..s
                },
                again,
            )
        }),
{
}

/// In the viewer `p` tells the path of the conversation, `Y` and `I` ask for its path and its
/// session id to be copied, `e` and `y` open the menus, and `q` and Esc leave for the list, or
/// end the program where there is none; Esc ends a search first.
#[verifier::rlimit(40)]
pub proof fn law_commands_of_the_viewer(
    s: AppView,
    v: ViewStateView,
    viewport_height: nat,
    at: u64,
    groups: Seq<ProjectGroup>,
)
    requires
        s.viewing == Some(v),
        s.dialog_mode == DialogMode::Closed,
        v.search_mode != ViewSearchMode::Typing,
    ensures
        ({
            let go = |code: KeyCode|
                s.after_key(code, KeyModifiers { control: false }, viewport_height, at, groups);
            let asks = |effect: Effect| KeyOutcomeView { action: None, effect };
            let nothing = KeyOutcomeView { action: None, effect: Effect::Nothing };
            let quits = KeyOutcomeView {
                action: Some(ActionView::Quit),
                effect: Effect::Nothing,
            };
            let left = if s.single_file_mode {
                (s, quits)
            } else {
                (AppView { viewing: None, ..s }, nothing)
            };
            &&& go(KeyCode::Char('p')) == (
                AppView { status: Some((v.conversation_path, at)), ..s },
                nothing,
            )
            &&& go(KeyCode::Char('Y')) == (s, asks(Effect::CopyPath))
            &&& crate::paths::spec_file_stem(v.conversation_path) is Some ==> go(
                KeyCode::Char('I'),
            ) == (s, asks(Effect::CopySessionId))
            &&& go(KeyCode::Char('e')) == (
                AppView { dialog_mode: DialogMode::ExportMenu { selected: 0 }, ..s },
                nothing,
            )
            &&& go(KeyCode::Char('y')) == (
                AppView { dialog_mode: DialogMode::YankMenu { selected: 0 }, ..s },
                nothing,
            )
            &&& go(KeyCode::Char('?')) == (
                AppView { dialog_mode: DialogMode::Help, ..s },
                nothing,
            )
            &&& go(KeyCode::Char('q')) == left
            &&& v.search_mode == ViewSearchMode::Off ==> go(KeyCode::Esc) == left
            &&& v.search_mode == ViewSearchMode::Active ==> go(KeyCode::Esc) == (
                AppView {
                    viewing: Some(
                        ViewStateView {
                            search_mode: ViewSearchMode::Off,
                            search_query: Seq::empty(),
                            search_matches: Seq::empty(),
                            ..v
                        },
                    ),
                    ..s
                },
                nothing,
            )
            &&& s.after_key(
                KeyCode::Char('c'),
                KeyModifiers { control: true },
                viewport_height,
                at,
                groups,
            ) == (s, quits)
        }),
{
}

/// A search in the viewer: `/` begins one, what is typed goes to the end of the query and
/// Backspace takes the last character out, Enter ends the typing and keeps the search where it
/// found something, and Esc ends the search; `n` and `N` go to the next and the previous match
/// and round at the ends.
#[verifier::rlimit(40)]
pub proof fn law_searching_in_the_viewer(
    s: AppView,
    v: ViewStateView,
    viewport_height: nat,
    at: u64,
    groups: Seq<ProjectGroup>,
    c: char,
)
    requires
        s.viewing == Some(v),
        v.wf(),
        s.dialog_mode == DialogMode::Closed,
    ensures
        ({
            let go = |code: KeyCode|
                s.after_key(
                    code,
                    KeyModifiers { control: false },
                    viewport_height,
                    at,
                    groups,
                ).0.viewing;
            let typing = v.search_mode == ViewSearchMode::Typing;
            let n = v.search_matches.len() as int;
            &&& !typing ==> go(KeyCode::Char('/')) == Some(
                ViewStateView {
                    search_mode: ViewSearchMode::Typing,
                    search_query: Seq::empty(),
                    search_matches: Seq::empty(),
                    current_match: 0,
                    ..v
                },
            )
            &&& typing ==> go(KeyCode::Char(c))->0.search_query == v.search_query.push(c)
            &&& typing && v.search_query.len() > 0 ==> go(KeyCode::Backspace)->0.search_query
                == v.search_query.drop_last()
            &&& typing ==> go(KeyCode::Enter) == Some(
                ViewStateView {
                    search_mode: if n > 0 {
                        ViewSearchMode::Active
                    } else {
                        ViewSearchMode::Off
                    },
                    ..v
                },
            )
            &&& typing ==> go(KeyCode::Esc) == Some(
                ViewStateView {
                    search_mode: ViewSearchMode::Off,
                    search_query: Seq::empty(),
                    search_matches: Seq::empty(),
                    ..v
                },
            )
            &&& v.search_mode == ViewSearchMode::Active && n > 0 ==> {
                let next = go(KeyCode::Char('n'))->0;
                let prev = go(KeyCode::Char('N'))->0;
                &&& next.current_match == (if v.current_match + 1 < n {
                    (v.current_match + 1) as int
                } else {
                    0
                })
                &&& prev.current_match == (if v.current_match > 0 {
                    v.current_match - 1
                } else {
                    n - 1
                })
                &&& next == (ViewStateView {
                    current_match: next.current_match,
                    scroll_offset: next.scroll_offset,
                    ..v
                })
                &&& prev == (ViewStateView {
                    current_match: prev.current_match,
                    scroll_offset: prev.scroll_offset,
                    ..v
                })
            }
        }),
{
}

// What no key changes

/// Whether the conversations, what is known of them, which of them passed the filter and whether
/// they are loaded are the same.
pub open spec fn same_conversations(s: AppView, t: AppView) -> bool {
    &&& t.conversations == s.conversations
    &&& t.facts == s.facts
    &&& t.filtered == s.filtered
    &&& t.searchable == s.searchable
    &&& t.loading_state == s.loading_state
    &&& t.single_file_mode == s.single_file_mode
    &&& t.previous_query == s.previous_query
}

/// Whether the list shows the same rows, the same query and the same selection.
pub open spec fn same_list(s: AppView, t: AppView) -> bool {
    &&& t.selected == s.selected
    &&& t.selected_row == s.selected_row
    &&& t.rows == s.rows
    &&& t.groups == s.groups
    &&& t.view_mode == s.view_mode
    &&& t.query == s.query
    &&& t.cursor_pos == s.cursor_pos
}

#[verifier::rlimit(40)]
proof fn lemma_hotkeys_keep(s: AppView, code: KeyCode, groups: Seq<ProjectGroup>)
    ensures
        same_conversations(s, s.hotkey(code, groups)),
{
}

#[verifier::rlimit(40)]
proof fn lemma_ready_keys_keep(s: AppView, code: KeyCode, control: bool, viewport_height: nat)
    ensures
        same_conversations(s, s.ready_key(code, control, viewport_height).0),
{
    match code {
        KeyCode::Char(c) => {
            lemma_list_chars_keep(s, c, control, viewport_height);
        },
        _ => {},
    }
}

#[verifier::rlimit(40)]
proof fn lemma_list_chars_keep(s: AppView, c: char, control: bool, viewport_height: nat)
    ensures
        same_conversations(s, s.list_char(c, control, viewport_height).0),
{
}

#[verifier::rlimit(40)]
proof fn lemma_loading_keys_keep(s: AppView, code: KeyCode, control: bool)
    ensures
        same_conversations(s, s.loading_key(code, control).0),
{
}

#[verifier::rlimit(40)]
proof fn lemma_preview_keys_keep(s: AppView, code: KeyCode, control: bool)
    ensures
        same_conversations(s, s.preview_key(code, control).0),
{
}

#[verifier::rlimit(40)]
proof fn lemma_list_keys_keep(
    s: AppView,
    code: KeyCode,
    control: bool,
    viewport_height: nat,
    groups: Seq<ProjectGroup>,
)
    ensures
        same_conversations(s, s.list_key(code, control, viewport_height, groups).0),
{
    if s.is_loading() {
        lemma_loading_keys_keep(s, code, control);
    } else if s.view_mode == ListViewMode::Grouped && s.pane_focus == PaneFocus::Preview {
        lemma_preview_keys_keep(s, code, control);
    } else if s.is_hotkey(code, control) {
        lemma_hotkeys_keep(s, code, groups);
    } else {
        lemma_ready_keys_keep(s, code, control, viewport_height);
    }
}

proof fn lemma_reading_keeps(s: AppView, v: ViewStateView)
    ensures
        same_conversations(s, s.reading(v)),
        same_list(s, s.reading(v)),
{
}

#[verifier::rlimit(40)]
proof fn lemma_search_keys_keep(s: AppView, v: ViewStateView, code: KeyCode)
    ensures
        same_conversations(s, s.search_typing_key(v, code).0),
        same_list(s, s.search_typing_key(v, code).0),
{
    match code {
        KeyCode::Char(c) => {
            lemma_reading_keeps(s, v.search_char_typed(c));
        },
        KeyCode::Backspace => {
            lemma_reading_keeps(s, v.search_char_erased());
        },
        _ => {},
    }
}

#[verifier::rlimit(40)]
proof fn lemma_view_chars_keep(
    s: AppView,
    v: ViewStateView,
    c: char,
    control: bool,
    viewport_height: nat,
    at: u64,
)
    ensures
        same_conversations(s, s.view_char(v, c, control, viewport_height, at).0),
        same_list(s, s.view_char(v, c, control, viewport_height, at).0),
{
    lemma_reading_keeps(s, v.next_match(viewport_height));
    lemma_reading_keeps(s, v.prev_match(viewport_height));
}

#[verifier::rlimit(40)]
proof fn lemma_view_keys_keep(
    s: AppView,
    v: ViewStateView,
    code: KeyCode,
    control: bool,
    viewport_height: nat,
    at: u64,
)
    ensures
        same_conversations(s, s.view_key(v, code, control, viewport_height, at).0),
        same_list(s, s.view_key(v, code, control, viewport_height, at).0),
{
    if v.search_mode == ViewSearchMode::Typing {
        lemma_search_keys_keep(s, v, code);
    } else {
        match code {
            KeyCode::Char(c) => {
                lemma_view_chars_keep(s, v, c, control, viewport_height, at);
            },
            _ => {},
        }
    }
}

/// No key changes the conversations, what is known of their projects, which of them passed the
/// filter, or whether they are loaded; and a key in the viewer changes neither the query nor what
/// is selected in the list.
#[verifier::rlimit(40)]
pub proof fn law_keys_leave_the_conversations_alone(
    s: AppView,
    code: KeyCode,
    modifiers: KeyModifiers,
    viewport_height: nat,
    at: u64,
    groups: Seq<ProjectGroup>,
)
    ensures
        ({
            let t = s.after_key(code, modifiers, viewport_height, at, groups).0;
            &&& same_conversations(s, t)
            &&& s.viewing is Some ==> same_list(s, t)
        }),
{
    if s.dialog_mode != DialogMode::Closed {
        law_dialogs_keep_the_rest(s, code, modifiers, viewport_height, at, groups);
    } else {
        match s.viewing {
            Some(v) => {
                lemma_view_keys_keep(s, v, code, modifiers.control, viewport_height, at);
            },
            None => {
                lemma_list_keys_keep(s, code, modifiers.control, viewport_height, groups);
            },
        }
    }
}

/// A key that is none of the dashboard's does nothing, wherever it is pressed.
#[verifier::rlimit(40)]
pub proof fn law_other_keys_do_nothing(
    s: AppView,
    modifiers: KeyModifiers,
    viewport_height: nat,
    at: u64,
    groups: Seq<ProjectGroup>,
)
    ensures
        s.after_key(KeyCode::Other, modifiers, viewport_height, at, groups) == (
            s,
            KeyOutcomeView { action: None, effect: Effect::Nothing },
        ),
{
}

} // verus!
