//! What each key does to the dashboard.

use crate::history::grouping::{is_grouping, ProjectGroup};
use crate::paths::spec_file_stem;
use crate::tui::keys::{
    acts, asks, quiet, ActionView, DialogMode, Effect, KeyCode, KeyModifiers, KeyOutcomeView,
    ListViewMode, PaneFocus, EXPORT_OPTION_COUNT,
};
use crate::tui::model::{
    group_number, group_paths, groups_fit, list_fits, nth_header, AppView,
};
use crate::tui::rows::{group_id, law_rows_fit, Row};
use crate::tui::view_state::{
    least, law_view_steps_keep_the_invariant, minus, ViewSearchMode, ViewStateView,
};
use vstd::prelude::*;

verus! {

impl AppView {
    /// The selected conversation resumed, selected or deleted.
    pub open spec fn resume_selected(self) -> KeyOutcomeView {
        acts(
            match self.selected_path() {
                Some(p) => Some(ActionView::Resume(p)),
                None => None,
            },
        )
    }

    pub open spec fn select_selected(self) -> KeyOutcomeView {
        acts(
            match self.selected_path() {
                Some(p) => Some(ActionView::Select(p)),
                None => None,
            },
        )
    }

    pub open spec fn delete_selected(self) -> KeyOutcomeView {
        acts(
            match self.selected_path() {
                Some(p) => Some(ActionView::Delete(p)),
                None => None,
            },
        )
    }

    /// The deletion of the selected conversation put up for confirmation.
    pub open spec fn deletion_asked(self) -> AppView {
        if self.selected_path() is Some {
            self.dialog(DialogMode::ConfirmDelete)
        } else {
            self
        }
    }

    /// Keys while a deletion is to be confirmed.
    pub open spec fn confirm_key(self, code: KeyCode) -> (AppView, KeyOutcomeView) {
        match code {
            KeyCode::Char(c) => if c == 'y' || c == 'Y' {
                (self.dialog(DialogMode::Closed), self.delete_selected())
            } else if c == 'n' || c == 'N' {
                (self.dialog(DialogMode::Closed), quiet())
            } else {
                (self, quiet())
            },
            KeyCode::Esc => (self.dialog(DialogMode::Closed), quiet()),
            _ => (self, quiet()),
        }
    }

    /// The export or yank menu with another option selected.
    pub open spec fn menu(self, selected: nat, is_yank: bool) -> AppView {
        if is_yank {
            self.dialog(DialogMode::YankMenu { selected: selected as usize })
        } else {
            self.dialog(DialogMode::ExportMenu { selected: selected as usize })
        }
    }

    /// The menu closed, and the export of an option asked for.
    pub open spec fn menu_chosen(self, option: usize, is_yank: bool) -> (AppView, KeyOutcomeView) {
        (
            self.dialog(DialogMode::Closed),
            asks(Effect::Export { option, to_clipboard: is_yank }),
        )
    }

    /// Keys while the export menu (or, with `is_yank`, the yank menu) is open.
    pub open spec fn menu_key(self, code: KeyCode, selected: usize, is_yank: bool) -> (
        AppView,
        KeyOutcomeView,
    ) {
        let up = self.menu(minus(selected as nat, 1), is_yank);
        let down = self.menu(
            least(selected as nat + 1, (EXPORT_OPTION_COUNT - 1) as nat),
            is_yank,
        );
        match code {
            KeyCode::Up => (up, quiet()),
            KeyCode::Down => (down, quiet()),
            KeyCode::Enter => self.menu_chosen(selected, is_yank),
            KeyCode::Esc => (self.dialog(DialogMode::Closed), quiet()),
            KeyCode::Char(c) => if c == 'k' {
                (up, quiet())
            } else if c == 'j' {
                (down, quiet())
            } else if c == '1' {
                self.menu_chosen(0, is_yank)
            } else if c == '2' {
                self.menu_chosen(1, is_yank)
            } else if c == '3' {
                self.menu_chosen(2, is_yank)
            } else if c == '4' {
                self.menu_chosen(3, is_yank)
            } else {
                (self, quiet())
            },
            _ => (self, quiet()),
        }
    }

    /// Keys while the help overlay is open.
    pub open spec fn help_key(self, code: KeyCode) -> (AppView, KeyOutcomeView) {
        if code == KeyCode::Esc || code == KeyCode::Char('?') || code == KeyCode::Char('q') {
            (self.dialog(DialogMode::Closed), quiet())
        } else {
            (self, quiet())
        }
    }

    /// Keys while a query is typed in the viewer.
    pub open spec fn search_typing_key(self, v: ViewStateView, code: KeyCode) -> (
        AppView,
        KeyOutcomeView,
    ) {
        match code {
            KeyCode::Char(c) => (self.reading(v.search_char_typed(c)), quiet()),
            KeyCode::Backspace => (self.reading(v.search_char_erased()), quiet()),
            KeyCode::Enter => (self.reading(v.search_confirmed()), quiet()),
            KeyCode::Esc => (self.reading(v.search_cleared()), quiet()),
            _ => (self, quiet()),
        }
    }

    /// The viewer left: the list comes back, or the program ends where there is no list.
    pub open spec fn viewer_left(self) -> (AppView, KeyOutcomeView) {
        if self.single_file_mode {
            (self, acts(Some(ActionView::Quit)))
        } else {
            (self.back_to_list(), quiet())
        }
    }

    /// The tool display cycled in the viewer, and kept for the next conversation.
    pub open spec fn tools_toggled(self, v: ViewStateView) -> AppView {
        let mode = v.tool_display.spec_next();
        AppView { tool_display: mode, ..self }.reading(ViewStateView { tool_display: mode, ..v })
    }

    /// Thinking blocks shown or hidden in the viewer, and kept for the next conversation.
    pub open spec fn thinking_toggled(self, v: ViewStateView) -> AppView {
        AppView { show_thinking: !v.show_thinking, ..self }.reading(
            ViewStateView { show_thinking: !v.show_thinking, ..v },
        )
    }

    /// Timing shown or hidden in the viewer, and kept for the next conversation.
    pub open spec fn timing_toggled(self, v: ViewStateView) -> AppView {
        AppView { show_timing: !v.show_timing, ..self }.reading(
            ViewStateView { show_timing: !v.show_timing, ..v },
        )
    }

    /// Characters in the viewer.
    pub open spec fn view_char(
        self,
        v: ViewStateView,
        c: char,
        control: bool,
        viewport_height: nat,
        at: u64,
    ) -> (AppView, KeyOutcomeView) {
        let half_page = viewport_height / 2;
        let active = v.search_mode == ViewSearchMode::Active;
        if c == 'q' {
            self.viewer_left()
        } else if c == 'j' {
            (self.reading(v.scrolled_down(1, viewport_height)), quiet())
        } else if c == 'k' {
            (self.reading(v.scrolled_up(1)), quiet())
        } else if c == 'd' {
            (self.reading(v.scrolled_down(half_page, viewport_height)), quiet())
        } else if c == 'u' {
            (self.reading(v.scrolled_up(half_page)), quiet())
        } else if c == 'g' {
            (self.reading(v.scrolled_to(0)), quiet())
        } else if c == 'G' {
            (self.reading(v.scrolled_to(v.max_scroll(viewport_height))), quiet())
        } else if c == '/' {
            (self.reading(v.search_started()), quiet())
        } else if c == 'n' && !control && active {
            (self.reading(v.next_match(viewport_height)), quiet())
        } else if c == 'N' && active {
            (self.reading(v.prev_match(viewport_height)), quiet())
        } else if c == 't' {
            (self.tools_toggled(v), asks(Effect::ReRender))
        } else if c == 'T' {
            (self.thinking_toggled(v), asks(Effect::ReRender))
        } else if c == 'i' {
            (self.timing_toggled(v), asks(Effect::ReRender))
        } else if c == 'p' {
            (self.telling(v.conversation_path, at), quiet())
        } else if c == 'Y' {
            (self, asks(Effect::CopyPath))
        } else if c == 'I' && spec_file_stem(v.conversation_path) is Some {
            (self, asks(Effect::CopySessionId))
        } else if c == 'e' {
            (self.dialog(DialogMode::ExportMenu { selected: 0 }), quiet())
        } else if c == 'y' {
            (self.dialog(DialogMode::YankMenu { selected: 0 }), quiet())
        } else if c == '?' {
            (self.dialog(DialogMode::Help), quiet())
        } else if c == 'x' && control && !self.single_file_mode {
            (self.dialog(DialogMode::ConfirmDelete), quiet())
        } else if c == 'r' && control && !self.single_file_mode {
            (self, self.resume_selected())
        } else if c == 'c' && control {
            (self, acts(Some(ActionView::Quit)))
        } else {
            (self, quiet())
        }
    }

    /// Keys in the viewer.
    pub open spec fn view_key(
        self,
        v: ViewStateView,
        code: KeyCode,
        control: bool,
        viewport_height: nat,
        at: u64,
    ) -> (AppView, KeyOutcomeView) {
        if v.search_mode == ViewSearchMode::Typing {
            self.search_typing_key(v, code)
        } else {
            match code {
                KeyCode::Esc => if v.search_mode == ViewSearchMode::Active {
                    (self.reading(v.search_cleared()), quiet())
                } else {
                    self.viewer_left()
                },
                KeyCode::Down => (self.reading(v.scrolled_down(1, viewport_height)), quiet()),
                KeyCode::Up => (self.reading(v.scrolled_up(1)), quiet()),
                KeyCode::PageDown => (
                    self.reading(v.scrolled_down(viewport_height, viewport_height)),
                    quiet(),
                ),
                KeyCode::PageUp => (self.reading(v.scrolled_up(viewport_height)), quiet()),
                KeyCode::Home => (self.reading(v.scrolled_to(0)), quiet()),
                KeyCode::End => (
                    self.reading(v.scrolled_to(v.max_scroll(viewport_height))),
                    quiet(),
                ),
                KeyCode::Char(c) => self.view_char(v, c, control, viewport_height, at),
                _ => (self, quiet()),
            }
        }
    }

    /// A change of the query that asks for `effect`, or nothing where there was no change.
    pub open spec fn edited(self, changed: bool, effect: Effect) -> (AppView, KeyOutcomeView) {
        (
            self,
            if changed {
                asks(effect)
            } else {
                quiet()
            },
        )
    }

    /// Keys in the list while conversations are still loading: moving and typing, but no
    /// selecting. The query is kept for when loading finishes.
    pub open spec fn loading_key(self, code: KeyCode, control: bool) -> (AppView, KeyOutcomeView) {
        match code {
            KeyCode::Esc => (self, acts(Some(ActionView::Quit))),
            KeyCode::Left => (self.cursor_left(), quiet()),
            KeyCode::Right => (self.cursor_right(), quiet()),
            KeyCode::Up => (self.flat_up(1), quiet()),
            KeyCode::Down => (self.flat_down(1), quiet()),
            KeyCode::PageUp => (self.flat_up(10), quiet()),
            KeyCode::PageDown => (self.flat_down(10), quiet()),
            KeyCode::Backspace => self.query_char_erased().edited(
                self.cursor_pos > 0,
                Effect::RefreshQueryWords,
            ),
            KeyCode::Delete => self.query_char_deleted().edited(
                self.cursor_pos < self.query.len(),
                Effect::RefreshQueryWords,
            ),
            KeyCode::Char(c) => if c == 'c' && control {
                (self, acts(Some(ActionView::Quit)))
            } else if c == 'n' && control {
                (self.flat_down(1), quiet())
            } else if c == 'p' && control {
                (self.flat_up(1), quiet())
            } else if c == 'w' && control {
                (self, asks(Effect::DeleteWord))
            } else if c == '?' {
                (self.dialog(DialogMode::Help), quiet())
            } else {
                (self.query_char_typed(c), asks(Effect::RefreshQueryWords))
            },
            _ => (self, quiet()),
        }
    }

    /// Keys while the preview pane has the focus: scrolling goes to the preview, and the
    /// actions on the selected conversation still work.
    pub open spec fn preview_key(self, code: KeyCode, control: bool) -> (AppView, KeyOutcomeView) {
        let page = self.preview_page();
        match code {
            KeyCode::Esc => (self.list_focused(), quiet()),
            KeyCode::Left => (self.list_focused(), quiet()),
            KeyCode::Down => (self.preview_down(1), quiet()),
            KeyCode::Up => (self.preview_up(1), quiet()),
            KeyCode::PageDown => (self.preview_down(page), quiet()),
            KeyCode::PageUp => (self.preview_up(page), quiet()),
            KeyCode::Enter => (self, self.select_selected()),
            KeyCode::Char(c) => if c == 'h' {
                (self.list_focused(), quiet())
            } else if c == 'j' {
                (self.preview_down(1), quiet())
            } else if c == 'k' {
                (self.preview_up(1), quiet())
            } else if c == 'd' && control {
                (self.preview_down(page / 2), quiet())
            } else if c == 'u' && control {
                (self.preview_up(page / 2), quiet())
            } else if c == 'g' {
                (AppView { preview_scroll: 0, ..self }, quiet())
            } else if c == 'G' && !control {
                (AppView { preview_scroll: self.preview_max_scroll(), ..self }, quiet())
            } else if (c == 'q' || c == 'c') && control {
                (self, acts(Some(ActionView::Quit)))
            } else if c == 'r' && control {
                (self, self.resume_selected())
            } else if c == 'o' && control {
                (self, self.select_selected())
            } else if c == 'x' && control {
                (self.deletion_asked(), quiet())
            } else if c == '?' {
                (self.dialog(DialogMode::Help), quiet())
            } else {
                (self, quiet())
            },
            _ => (self, quiet()),
        }
    }

    /// Whether a key is one of the dashboard's own, before it can be typed or move a selection.
    pub open spec fn is_hotkey(self, code: KeyCode, control: bool) -> bool {
        let grouped = self.view_mode == ListViewMode::Grouped;
        match code {
            KeyCode::Tab => grouped,
            KeyCode::BackTab => grouped,
            KeyCode::Right => grouped && self.preview_visible && self.query.len() == 0,
            KeyCode::Char(c) => {
                ||| c == 'G' && !control
                ||| grouped && (c == '*' || c == 'P')
                ||| grouped && group_number(c) > 0 && self.query.len() == 0 && !control
            },
            _ => false,
        }
    }

    /// What the dashboard's own keys do.
    pub open spec fn hotkey(self, code: KeyCode, groups: Seq<ProjectGroup>) -> AppView {
        match code {
            KeyCode::Tab => self.group_toggled(),
            KeyCode::BackTab => self.all_collapsed(),
            KeyCode::Right => self.preview_focused(),
            KeyCode::Char(c) => if c == '*' {
                self.all_expanded()
            } else if c == 'G' {
                self.view_toggled(groups)
            } else if c == 'P' {
                self.preview_toggled()
            } else {
                self.jumped_to_group(group_number(c))
            },
            _ => self,
        }
    }

    /// Characters in the list.
    pub open spec fn list_char(self, c: char, control: bool, viewport_height: nat) -> (
        AppView,
        KeyOutcomeView,
    ) {
        if c == 'c' && control {
            (self, acts(Some(ActionView::Quit)))
        } else if c == 'n' && control {
            (self.selected_next(), quiet())
        } else if c == 'p' && control {
            (self.selected_prev(), quiet())
        } else if c == 'd' && control {
            (self.selected_down(viewport_height / 2), quiet())
        } else if c == 'u' && control {
            (self.selected_up(viewport_height / 2), quiet())
        } else if c == 'x' && control {
            (self.deletion_asked(), quiet())
        } else if c == 'r' && control {
            (self, self.resume_selected())
        } else if c == 'o' && control {
            (self, self.select_selected())
        } else if c == 'w' && control {
            (self, asks(Effect::DeleteWord))
        } else if c == '?' {
            (self.dialog(DialogMode::Help), quiet())
        } else {
            (self.query_char_typed(c), asks(Effect::Search))
        }
    }

    /// Keys in the list once everything is loaded.
    pub open spec fn ready_key(self, code: KeyCode, control: bool, viewport_height: nat) -> (
        AppView,
        KeyOutcomeView,
    ) {
        match code {
            KeyCode::Esc => (self, acts(Some(ActionView::Quit))),
            KeyCode::Left => (self.cursor_left(), quiet()),
            KeyCode::Right => (self.cursor_right(), quiet()),
            KeyCode::Up => (self.selected_prev(), quiet()),
            KeyCode::Down => (self.selected_next(), quiet()),
            KeyCode::Home => (self.selected_first(), quiet()),
            KeyCode::End => (self.selected_last(), quiet()),
            KeyCode::PageUp => (self.selected_up(10), quiet()),
            KeyCode::PageDown => (self.selected_down(10), quiet()),
            KeyCode::Backspace => self.query_char_erased().edited(
                self.cursor_pos > 0,
                Effect::Search,
            ),
            KeyCode::Delete => self.query_char_deleted().edited(
                self.cursor_pos < self.query.len(),
                Effect::Search,
            ),
            KeyCode::Char(c) => self.list_char(c, control, viewport_height),
            _ => (self, quiet()),
        }
    }

    /// Keys in the list.
    pub open spec fn list_key(
        self,
        code: KeyCode,
        control: bool,
        viewport_height: nat,
        groups: Seq<ProjectGroup>,
    ) -> (AppView, KeyOutcomeView) {
        if self.is_loading() {
            self.loading_key(code, control)
        } else if self.view_mode == ListViewMode::Grouped && self.pane_focus == PaneFocus::Preview {
            self.preview_key(code, control)
        } else if self.is_hotkey(code, control) {
            (self.hotkey(code, groups), quiet())
        } else {
            self.ready_key(code, control, viewport_height)
        }
    }

    /// Whether a key brings up the grouped view.
    pub open spec fn shows_groups(self, code: KeyCode, modifiers: KeyModifiers) -> bool {
        &&& self.dialog_mode == DialogMode::Closed
        &&& self.viewing is None
        &&& !self.is_loading()
        &&& self.view_mode == ListViewMode::Flat
        &&& code == KeyCode::Char('G')
        &&& !modifiers.control
    }

    /// The dashboard after a key, and its answer. `groups` are the groups that are shown where
    /// the key brings up the grouped view.
    pub open spec fn after_key(
        self,
        code: KeyCode,
        modifiers: KeyModifiers,
        viewport_height: nat,
        at: u64,
        groups: Seq<ProjectGroup>,
    ) -> (AppView, KeyOutcomeView) {
        match self.dialog_mode {
            DialogMode::ConfirmDelete => self.confirm_key(code),
            DialogMode::ExportMenu { selected } => self.menu_key(code, selected, false),
            DialogMode::YankMenu { selected } => self.menu_key(code, selected, true),
            DialogMode::Help => self.help_key(code),
            DialogMode::Closed => match self.viewing {
                Some(v) => self.view_key(v, code, modifiers.control, viewport_height, at),
                None => self.list_key(code, modifiers.control, viewport_height, groups),
            },
        }
    }
}

/// Rows that were rebuilt are rows of the groups.
pub(crate) proof fn lemma_rows_rebuilt(s: AppView)
    requires
        s.groups.len() <= usize::MAX,
        is_grouping(s.conversations, s.facts, s.groups),
    ensures
        s.rows_rebuilt().groups_fit(),
{
    reveal(groups_fit);
    law_rows_fit(s.groups, s.expanded, s.query.len() > 0, s.filtered);
}

proof fn lemma_nth_header(rows: Seq<Row>, n: nat, from: nat)
    requires
        rows.len() <= usize::MAX,
    ensures
        nth_header(rows, n, from) matches Some(i) ==> i < rows.len() && rows[i as int] is Header,
    decreases rows.len() - from,
{
    if from >= rows.len() || n == 0 {
    } else if rows[from as int] is Header {
        if n > 1 {
            lemma_nth_header(rows, (n - 1) as nat, from + 1);
        }
    } else {
        lemma_nth_header(rows, n, from + 1);
    }
}

proof fn lemma_reading_keeps_wf(s: AppView, v: ViewStateView)
    requires
        s.wf(),
        v.wf(),
    ensures
        s.reading(v).wf(),
{
}

proof fn lemma_search_typing_keeps_wf(s: AppView, v: ViewStateView, code: KeyCode)
    requires
        s.wf(),
        v.wf(),
    ensures
        s.search_typing_key(v, code).0.wf(),
{
    law_view_steps_keep_the_invariant(v, code->Char_0, 0, Seq::empty(), Seq::empty(), 0);
    lemma_reading_keeps_wf(s, v.search_char_typed(code->Char_0));
    lemma_reading_keeps_wf(s, v.search_char_erased());
    lemma_reading_keeps_wf(s, v.search_confirmed());
    lemma_reading_keeps_wf(s, v.search_cleared());
}

proof fn lemma_view_char_keeps_wf(
    s: AppView,
    v: ViewStateView,
    c: char,
    control: bool,
    viewport_height: nat,
    at: u64,
)
    requires
        s.wf(),
        v.wf(),
    ensures
        s.view_char(v, c, control, viewport_height, at).0.wf(),
{
    law_view_steps_keep_the_invariant(v, c, 0, Seq::empty(), Seq::empty(), viewport_height);
}

proof fn lemma_view_key_keeps_wf(
    s: AppView,
    v: ViewStateView,
    code: KeyCode,
    control: bool,
    viewport_height: nat,
    at: u64,
)
    requires
        s.wf(),
        v.wf(),
    ensures
        s.view_key(v, code, control, viewport_height, at).0.wf(),
{
    if v.search_mode == ViewSearchMode::Typing {
        lemma_search_typing_keeps_wf(s, v, code);
    } else {
        match code {
            KeyCode::Char(c) => {
                lemma_view_char_keeps_wf(s, v, c, control, viewport_height, at);
            },
            _ => {},
        }
    }
}

proof fn lemma_hotkey_keeps_wf(s: AppView, code: KeyCode, groups: Seq<ProjectGroup>)
    requires
        s.wf(),
        s.fits_machine(),
        code == KeyCode::Char('G') && s.view_mode == ListViewMode::Flat ==> is_grouping(
            s.conversations,
            s.facts,
            groups,
        ) && groups.len() <= usize::MAX,
        code != KeyCode::Char('G') ==> s.view_mode == ListViewMode::Grouped,
    ensures
        s.hotkey(code, groups).wf(),
{
    assert(s.view_mode == ListViewMode::Grouped ==> is_grouping(
        s.conversations,
        s.facts,
        s.groups,
    )) by {
        reveal(groups_fit);
    }
    match code {
        KeyCode::Tab => {
            match s.selected_group() {
                Some(g) => {
                    match group_id(s.groups[g as int]) {
                        Some(id) => {
                            lemma_rows_rebuilt(
                                AppView {
                                    expanded: if s.expanded.contains(id) {
                                        s.expanded.remove(id)
                                    } else {
                                        s.expanded.insert(id)
                                    },
                                    ..s
                                },
                            );
                        },
                        None => {},
                    }
                },
                None => {},
            }
        },
        KeyCode::BackTab => {
            lemma_rows_rebuilt(AppView { expanded: Set::empty(), ..s });
        },
        KeyCode::Char(c) => {
            if c == '*' {
                lemma_rows_rebuilt(
                    AppView { expanded: s.expanded.union(group_paths(s.groups)), ..s },
                );
            } else if c == 'G' {
                if s.view_mode == ListViewMode::Flat {
                    lemma_regrouped_keeps_wf(
                        AppView { view_mode: ListViewMode::Grouped, ..s },
                        groups,
                    );
                }
            } else {
                lemma_nth_header(s.rows, group_number(c), 0);
                reveal(groups_fit);
            }
        },
        _ => {},
    }
}

/// Groups that are put in place are those of the conversations.
pub(crate) proof fn lemma_regrouped_keeps_wf(s: AppView, groups: Seq<ProjectGroup>)
    requires
        groups.len() <= usize::MAX,
        is_grouping(s.conversations, s.facts, groups),
    ensures
        s.regrouped(groups).groups_fit(),
{
    lemma_rows_rebuilt(AppView { groups, ..s }.seeded());
}

proof fn lemma_moves_keep_wf(s: AppView, amount: nat)
    requires
        s.wf(),
        s.fits_machine(),
    ensures
        s.flat_up(amount).wf(),
        s.flat_down(amount).wf(),
        s.selected_up(amount).wf(),
        s.selected_down(amount).wf(),
        s.selected_prev().wf(),
        s.selected_next().wf(),
        s.selected_first().wf(),
        s.selected_last().wf(),
{
    reveal(list_fits);
    reveal(groups_fit);
}

proof fn lemma_edits_keep_wf(s: AppView, c: char)
    requires
        s.wf(),
    ensures
        s.cursor_left().wf(),
        s.cursor_right().wf(),
        s.query_char_typed(c).wf(),
        s.query_char_erased().wf(),
        s.query_char_deleted().wf(),
        s.dialog(DialogMode::Help).wf(),
        s.deletion_asked().wf(),
{
}

proof fn lemma_loading_key_keeps_wf(s: AppView, code: KeyCode, control: bool)
    requires
        s.wf(),
        s.fits_machine(),
    ensures
        s.loading_key(code, control).0.wf(),
{
    match code {
        KeyCode::Up => {
            lemma_moves_keep_wf(s, 1);
        },
        KeyCode::Down => {
            lemma_moves_keep_wf(s, 1);
        },
        KeyCode::PageUp => {
            lemma_moves_keep_wf(s, 10);
        },
        KeyCode::PageDown => {
            lemma_moves_keep_wf(s, 10);
        },
        KeyCode::Char(c) => {
            if control && (c == 'n' || c == 'p') {
                lemma_moves_keep_wf(s, 1);
            } else {
                lemma_edits_keep_wf(s, c);
            }
        },
        _ => {
            lemma_edits_keep_wf(s, ' ');
        },
    }
}

proof fn lemma_preview_key_keeps_wf(s: AppView, code: KeyCode, control: bool)
    requires
        s.wf(),
    ensures
        s.preview_key(code, control).0.wf(),
{
}

proof fn lemma_list_char_keeps_wf(s: AppView, c: char, control: bool, viewport_height: nat)
    requires
        s.wf(),
        s.fits_machine(),
    ensures
        s.list_char(c, control, viewport_height).0.wf(),
{
    if control && (c == 'n' || c == 'p' || c == 'd' || c == 'u') {
        lemma_moves_keep_wf(s, viewport_height / 2);
    } else {
        lemma_edits_keep_wf(s, c);
    }
}

proof fn lemma_ready_key_keeps_wf(s: AppView, code: KeyCode, control: bool, viewport_height: nat)
    requires
        s.wf(),
        s.fits_machine(),
    ensures
        s.ready_key(code, control, viewport_height).0.wf(),
{
    match code {
        KeyCode::Char(c) => {
            lemma_list_char_keeps_wf(s, c, control, viewport_height);
        },
        KeyCode::Left => {
            lemma_edits_keep_wf(s, ' ');
        },
        KeyCode::Right => {
            lemma_edits_keep_wf(s, ' ');
        },
        KeyCode::Backspace => {
            lemma_edits_keep_wf(s, ' ');
        },
        KeyCode::Delete => {
            lemma_edits_keep_wf(s, ' ');
        },
        _ => {
            lemma_moves_keep_wf(s, 10);
        },
    }
}

proof fn lemma_list_key_keeps_wf(
    s: AppView,
    code: KeyCode,
    control: bool,
    viewport_height: nat,
    groups: Seq<ProjectGroup>,
)
    requires
        s.wf(),
        s.fits_machine(),
        !s.is_loading() && s.view_mode == ListViewMode::Flat && code == KeyCode::Char('G')
            && !control ==> is_grouping(s.conversations, s.facts, groups) && groups.len()
            <= usize::MAX,
    ensures
        s.list_key(code, control, viewport_height, groups).0.wf(),
{
    if s.is_loading() {
        lemma_loading_key_keeps_wf(s, code, control);
    } else if s.view_mode == ListViewMode::Grouped && s.pane_focus == PaneFocus::Preview {
        lemma_preview_key_keeps_wf(s, code, control);
    } else if s.is_hotkey(code, control) {
        lemma_hotkey_keeps_wf(s, code, groups);
    } else {
        lemma_ready_key_keeps_wf(s, code, control, viewport_height);
    }
}

/// Every key keeps the invariant of the dashboard.
pub proof fn law_keys_keep_the_invariant(
    s: AppView,
    code: KeyCode,
    modifiers: KeyModifiers,
    viewport_height: nat,
    at: u64,
    groups: Seq<ProjectGroup>,
)
    requires
        s.wf(),
        s.fits_machine(),
        s.shows_groups(code, modifiers) ==> is_grouping(s.conversations, s.facts, groups)
            && groups.len() <= usize::MAX,
    ensures
        s.after_key(code, modifiers, viewport_height, at, groups).0.wf(),
{
    if s.dialog_mode == DialogMode::Closed {
        match s.viewing {
            Some(v) => {
                lemma_view_key_keeps_wf(s, v, code, modifiers.control, viewport_height, at);
            },
            None => {
                lemma_list_key_keeps_wf(s, code, modifiers.control, viewport_height, groups);
            },
        }
    }
}

} // verus!
