//! The state of the conversation viewer.

use crate::history::LogEntry;
use crate::text::{chars_of, lowercase, string_of, sub_chars, to_lowercase};
use crate::tui::lines::{find_matches, lines_view, match_lines, RenderedLine};
use vstd::prelude::*;

verus! {

/// How much of tool calls and their results is shown.
#[derive(Clone, Copy, Debug, PartialEq, Eq, Structural)]
pub enum ToolDisplayMode {
    Hidden,
    Truncated,
    Full,
}

impl ToolDisplayMode {
    /// The mode after this one; the last is followed by the first.
    pub open spec fn spec_next(self) -> ToolDisplayMode {
        match self {
            ToolDisplayMode::Hidden => ToolDisplayMode::Truncated,
            ToolDisplayMode::Truncated => ToolDisplayMode::Full,
            ToolDisplayMode::Full => ToolDisplayMode::Hidden,
        }
    }

    /// The mode after this one; the last is followed by the first.
    pub fn next(self) -> (r: ToolDisplayMode)
        ensures
            r == self.spec_next(),
    {
        match self {
            ToolDisplayMode::Hidden => ToolDisplayMode::Truncated,
            ToolDisplayMode::Truncated => ToolDisplayMode::Full,
            ToolDisplayMode::Full => ToolDisplayMode::Hidden,
        }
    }

    /// Whether tools are shown at all.
    pub fn is_visible(self) -> (r: bool)
        ensures
            r == (self != ToolDisplayMode::Hidden),
    {
        match self {
            ToolDisplayMode::Hidden => false,
            _ => true,
        }
    }
}

/// Search mode within view.
#[derive(Clone, Copy, Debug, PartialEq, Eq, Structural)]
pub enum ViewSearchMode {
    Off,
    /// Typing search query.
    Typing,
    /// Search active, navigating results.
    Active,
}

impl Default for ViewSearchMode {
    fn default() -> (r: Self)
        ensures
            r == ViewSearchMode::Off,
    {
        ViewSearchMode::Off
    }
}

/// State for the conversation viewer.
#[derive(Debug)]
pub struct ViewState {
    /// Path to the conversation file (stable identity).
    pub conversation_path: String,
    /// Current scroll position (line offset).
    pub scroll_offset: usize,
    /// Pre-rendered conversation lines.
    pub rendered_lines: Vec<RenderedLine>,
    /// Total content height in lines.
    pub total_lines: usize,
    /// Tool display mode (hidden/truncated/full).
    pub tool_display: ToolDisplayMode,
    /// Whether to show thinking blocks.
    pub show_thinking: bool,
    /// Whether to show timing information (timestamps and durations).
    pub show_timing: bool,
    /// Content width used for rendering (for resize detection).
    pub content_width: usize,
    /// Search mode state.
    pub search_mode: ViewSearchMode,
    /// Current search query.
    pub search_query: String,
    /// Line indices with matches.
    pub search_matches: Vec<usize>,
    /// Current match index.
    pub current_match: usize,
    /// Cached log entries to avoid re-reading from disk on toggle.
    pub cached_entries: Vec<LogEntry>,
}

/// What a `ViewState` says.
#[verifier::ext_equal]
pub struct ViewStateView {
    pub conversation_path: Seq<char>,
    pub scroll_offset: nat,
    pub rendered_lines: Seq<RenderedLine>,
    pub total_lines: nat,
    pub tool_display: ToolDisplayMode,
    pub show_thinking: bool,
    pub show_timing: bool,
    pub content_width: nat,
    pub search_mode: ViewSearchMode,
    pub search_query: Seq<char>,
    pub search_matches: Seq<usize>,
    pub current_match: nat,
    pub cached_entries: Seq<LogEntry>,
}

impl View for ViewState {
    type V = ViewStateView;

    open spec fn view(&self) -> ViewStateView {
        ViewStateView {
            conversation_path: self.conversation_path@,
            scroll_offset: self.scroll_offset as nat,
            rendered_lines: self.rendered_lines@,
            total_lines: self.total_lines as nat,
            tool_display: self.tool_display,
            show_thinking: self.show_thinking,
            show_timing: self.show_timing,
            content_width: self.content_width as nat,
            search_mode: self.search_mode,
            search_query: self.search_query@,
            search_matches: self.search_matches@,
            current_match: self.current_match as nat,
            cached_entries: self.cached_entries@,
        }
    }
}

/// The smaller of two numbers.
pub open spec fn least(a: nat, b: nat) -> nat {
    if a <= b {
        a
    } else {
        b
    }
}

/// `a - b`, or zero where `b` is larger.
pub open spec fn minus(a: nat, b: nat) -> nat {
    if a >= b {
        (a - b) as nat
    } else {
        0
    }
}

/// The smaller of two numbers.
pub(crate) fn least_of(a: usize, b: usize) -> (r: usize)
    ensures
        r == least(a as nat, b as nat),
{
    if a <= b {
        a
    } else {
        b
    }
}

/// `a - b`, or zero where `b` is larger.
pub(crate) fn difference(a: usize, b: usize) -> (r: usize)
    ensures
        r == minus(a as nat, b as nat),
{
    if a >= b {
        a - b
    } else {
        0
    }
}

/// `a + amount`, but no more than `limit`.
pub(crate) fn sum_within(a: usize, amount: usize, limit: usize) -> (r: usize)
    ensures
        r == least((a + amount) as nat, limit as nat),
{
    if a >= limit || limit - a <= amount {
        limit
    } else {
        a + amount
    }
}

impl ViewStateView {
    /// Whether the line count is right and the current match is one of the matches.
    pub open spec fn wf(self) -> bool {
        &&& self.total_lines == self.rendered_lines.len()
        &&& self.search_matches.len() == 0 || self.current_match < self.search_matches.len()
    }

    /// The viewer as it opens on a conversation.
    pub open spec fn opened(
        path: Seq<char>,
        entries: Seq<LogEntry>,
        lines: Seq<RenderedLine>,
        tool_display: ToolDisplayMode,
        show_thinking: bool,
        show_timing: bool,
        content_width: nat,
    ) -> ViewStateView {
        ViewStateView {
            conversation_path: path,
            scroll_offset: 0,
            rendered_lines: lines,
            total_lines: lines.len(),
            tool_display,
            show_thinking,
            show_timing,
            content_width,
            search_mode: ViewSearchMode::Off,
            search_query: Seq::empty(),
            search_matches: Seq::empty(),
            current_match: 0,
            cached_entries: entries,
        }
    }

    /// The last scroll position at which the page is full.
    pub open spec fn max_scroll(self, viewport_height: nat) -> nat {
        minus(self.total_lines, viewport_height)
    }

    pub open spec fn scrolled_to(self, line: nat) -> ViewStateView {
        ViewStateView { scroll_offset: line, ..self }
    }

    pub open spec fn scrolled_down(self, amount: nat, viewport_height: nat) -> ViewStateView {
        self.scrolled_to(least(self.scroll_offset + amount, self.max_scroll(viewport_height)))
    }

    pub open spec fn scrolled_up(self, amount: nat) -> ViewStateView {
        self.scrolled_to(minus(self.scroll_offset, amount))
    }

    /// The viewer with an empty query being typed.
    pub open spec fn search_started(self) -> ViewStateView {
        ViewStateView {
            search_mode: ViewSearchMode::Typing,
            search_query: Seq::empty(),
            search_matches: Seq::empty(),
            current_match: 0,
            ..self
        }
    }

    /// The viewer after looking for the lower-cased query: the matches are listed and the first
    /// one is at the top of the page.
    pub open spec fn results_for(self, query_lower: Seq<char>) -> ViewStateView {
        let found = match_lines(lines_view(self.rendered_lines), query_lower);
        if query_lower.len() == 0 {
            ViewStateView { search_matches: Seq::empty(), ..self }
        } else if found.len() == 0 {
            ViewStateView { search_matches: found, ..self }
        } else {
            ViewStateView {
                search_matches: found,
                current_match: 0,
                scroll_offset: found[0] as nat,
                ..self
            }
        }
    }

    /// The viewer with the query replaced and looked for.
    pub open spec fn searched(self, query: Seq<char>) -> ViewStateView {
        ViewStateView { search_query: query, ..self }.results_for(lowercase(query))
    }

    pub open spec fn search_char_typed(self, c: char) -> ViewStateView {
        self.searched(self.search_query.push(c))
    }

    pub open spec fn search_char_erased(self) -> ViewStateView {
        self.searched(
            if self.search_query.len() == 0 {
                self.search_query
            } else {
                self.search_query.drop_last()
            },
        )
    }

    /// The viewer when typing ends: the search stays active where it found something.
    pub open spec fn search_confirmed(self) -> ViewStateView {
        ViewStateView {
            search_mode: if self.search_matches.len() > 0 {
                ViewSearchMode::Active
            } else {
                ViewSearchMode::Off
            },
            ..self
        }
    }

    pub open spec fn search_cleared(self) -> ViewStateView {
        ViewStateView {
            search_mode: ViewSearchMode::Off,
            search_query: Seq::empty(),
            search_matches: Seq::empty(),
            ..self
        }
    }

    /// The viewer with match `m` current and its line on the page.
    pub open spec fn at_match(self, m: nat, viewport_height: nat) -> ViewStateView {
        let line = self.search_matches[m as int] as nat;
        ViewStateView {
            current_match: m,
            scroll_offset: if line < self.scroll_offset || line >= self.scroll_offset
                + viewport_height {
                line
            } else {
                self.scroll_offset
            },
            ..self
        }
    }

    pub open spec fn next_match(self, viewport_height: nat) -> ViewStateView {
        if self.search_matches.len() == 0 {
            self
        } else if self.current_match + 1 < self.search_matches.len() {
            self.at_match(self.current_match + 1, viewport_height)
        } else {
            self.at_match(0, viewport_height)
        }
    }

    pub open spec fn prev_match(self, viewport_height: nat) -> ViewStateView {
        if self.search_matches.len() == 0 {
            self
        } else if self.current_match == 0 {
            self.at_match((self.search_matches.len() - 1) as nat, viewport_height)
        } else {
            self.at_match((self.current_match - 1) as nat, viewport_height)
        }
    }

    /// The viewer showing other lines: the page stays inside them, and an active search is
    /// carried over to them.
    pub open spec fn showing(
        self,
        lines: Seq<RenderedLine>,
        viewport_height: nat,
    ) -> ViewStateView {
        let shown = ViewStateView {
            rendered_lines: lines,
            total_lines: lines.len(),
            scroll_offset: least(self.scroll_offset, minus(lines.len(), viewport_height)),
            ..self
        };
        if self.search_mode == ViewSearchMode::Active && self.search_query.len() > 0 {
            let found = match_lines(lines_view(lines), lowercase(self.search_query));
            ViewStateView {
                search_matches: found,
                current_match: if found.len() == 0 {
                    0
                } else {
                    least(self.current_match, (found.len() - 1) as nat)
                },
                ..shown
            }
        } else {
            shown
        }
    }

    pub open spec fn with_entries(self, entries: Seq<LogEntry>) -> ViewStateView {
        ViewStateView { cached_entries: entries, ..self }
    }
}

impl ViewState {
    /// The viewer as it opens on a conversation.
    pub fn open(
        path: String,
        entries: Vec<LogEntry>,
        lines: Vec<RenderedLine>,
        tool_display: ToolDisplayMode,
        show_thinking: bool,
        show_timing: bool,
        content_width: usize,
    ) -> (r: ViewState)
        ensures
            r@ == ViewStateView::opened(
                path@,
                entries@,
                lines@,
                tool_display,
                show_thinking,
                show_timing,
                content_width as nat,
            ),
    {
        let total_lines: usize = lines.len();
        let r = ViewState {
            conversation_path: path,
            scroll_offset: 0,
            rendered_lines: lines,
            total_lines,
            tool_display,
            show_thinking,
            show_timing,
            content_width,
            search_mode: ViewSearchMode::Off,
            search_query: String::new(),
            search_matches: Vec::new(),
            current_match: 0,
            cached_entries: entries,
        };
        assert(r.search_query@ =~= Seq::<char>::empty());
        r
    }

    pub fn scroll_down(&mut self, amount: usize, viewport_height: usize)
        ensures
            final(self)@ == old(self)@.scrolled_down(amount as nat, viewport_height as nat),
    {
        let max_scroll: usize = difference(self.total_lines, viewport_height);
        self.scroll_offset = sum_within(self.scroll_offset, amount, max_scroll);
    }

    pub fn scroll_up(&mut self, amount: usize)
        ensures
            final(self)@ == old(self)@.scrolled_up(amount as nat),
    {
        self.scroll_offset = difference(self.scroll_offset, amount);
    }

    pub fn scroll_to_top(&mut self)
        ensures
            final(self)@ == old(self)@.scrolled_to(0),
    {
        self.scroll_offset = 0;
    }

    pub fn scroll_to_bottom(&mut self, viewport_height: usize)
        ensures
            final(self)@ == old(self)@.scrolled_to(old(self)@.max_scroll(viewport_height as nat)),
    {
        self.scroll_offset = difference(self.total_lines, viewport_height);
    }

    /// Start search mode in view.
    pub fn start_view_search(&mut self)
        ensures
            final(self)@ == old(self)@.search_started(),
    {
        self.search_mode = ViewSearchMode::Typing;
        self.search_query = String::new();
        self.search_matches = Vec::new();
        self.current_match = 0;
        assert(self.search_query@ =~= Seq::<char>::empty());
    }

    /// Look for a lower-cased query.
    pub fn show_results_for(&mut self, query_lower: &str)
        ensures
            final(self)@ == old(self)@.results_for(query_lower@),
    {
        if query_lower.unicode_len() == 0 {
            self.search_matches = Vec::new();
            return;
        }
        self.search_matches = find_matches(&self.rendered_lines, query_lower);

        // Jump to first match if any
        if self.search_matches.len() > 0 {
            self.current_match = 0;
            self.scroll_offset = self.search_matches[0];
        }
    }

    /// Update search results based on current query.
    pub fn update_search_results(&mut self)
        ensures
            final(self)@ == old(self)@.searched(old(self)@.search_query),
    {
        let query_lower: String = to_lowercase(self.search_query.as_str());
        self.show_results_for(query_lower.as_str());
    }

    /// Add a character to the query being typed.
    pub fn type_search_char(&mut self, c: char)
        ensures
            final(self)@ == old(self)@.search_char_typed(c),
    {
        self.search_query.push(c);
        self.update_search_results();
    }

    /// Take the last character off the query being typed.
    pub fn erase_search_char(&mut self)
        ensures
            final(self)@ == old(self)@.search_char_erased(),
    {
        let chars: Vec<char> = chars_of(self.search_query.as_str());
        if chars.len() > 0 {
            let front: Vec<char> = sub_chars(chars.as_slice(), 0, chars.len() - 1);
            self.search_query = string_of(front.as_slice());
            assert(front@ =~= chars@.drop_last());
        }
        self.update_search_results();
    }

    /// End typing: the search stays active where it found something.
    pub fn confirm_search(&mut self)
        ensures
            final(self)@ == old(self)@.search_confirmed(),
    {
        self.search_mode = if self.search_matches.len() > 0 {
            ViewSearchMode::Active
        } else {
            ViewSearchMode::Off
        };
    }

    pub fn clear_search(&mut self)
        ensures
            final(self)@ == old(self)@.search_cleared(),
    {
        self.search_mode = ViewSearchMode::Off;
        self.search_query = String::new();
        self.search_matches = Vec::new();
        assert(self.search_query@ =~= Seq::<char>::empty());
    }

    /// Makes match `m` the current one and scrolls to show it.
    fn go_to_match(&mut self, m: usize, viewport_height: usize)
        requires
            m < old(self).search_matches@.len(),
        ensures
            final(self)@ == old(self)@.at_match(m as nat, viewport_height as nat),
    {
        self.current_match = m;
        let match_line: usize = self.search_matches[m];
        // Scroll to show match in viewport
        if match_line < self.scroll_offset || match_line - self.scroll_offset >= viewport_height {
            self.scroll_offset = match_line;
        }
    }

    /// Go to next search match.
    pub fn next_search_match(&mut self, viewport_height: usize)
        requires
            old(self)@.wf(),
        ensures
            final(self)@ == old(self)@.next_match(viewport_height as nat),
    {
        if self.search_matches.len() == 0 {
            return;
        }
        let m: usize = if self.current_match + 1 < self.search_matches.len() {
            self.current_match + 1
        } else {
            0
        };
        self.go_to_match(m, viewport_height);
    }

    /// Go to previous search match.
    pub fn prev_search_match(&mut self, viewport_height: usize)
        requires
            old(self)@.wf(),
        ensures
            final(self)@ == old(self)@.prev_match(viewport_height as nat),
    {
        if self.search_matches.len() == 0 {
            return;
        }
        let m: usize = if self.current_match == 0 {
            self.search_matches.len() - 1
        } else {
            self.current_match - 1
        };
        self.go_to_match(m, viewport_height);
    }

    /// Show other lines.
    pub fn show_lines(&mut self, lines: Vec<RenderedLine>, viewport_height: usize)
        ensures
            final(self)@ == old(self)@.showing(lines@, viewport_height as nat),
    {
        self.total_lines = lines.len();
        self.rendered_lines = lines;

        // Clamp scroll offset to new content bounds
        let max_scroll: usize = difference(self.total_lines, viewport_height);
        self.scroll_offset = least_of(self.scroll_offset, max_scroll);

        // Recompute search matches for new content
        if self.search_mode == ViewSearchMode::Active && self.search_query.as_str().unicode_len()
            > 0 {
            let query_lower: String = to_lowercase(self.search_query.as_str());
            self.search_matches = find_matches(&self.rendered_lines, query_lower.as_str());

            // Clamp current_match to valid range
            self.current_match = if self.search_matches.len() == 0 {
                0
            } else {
                least_of(self.current_match, self.search_matches.len() - 1)
            };
        }
    }
}

/// Going to the next match and back to the previous one, or the other way round, comes back
/// to the same match.
pub proof fn law_next_and_prev_match_undo_each_other(s: ViewStateView, viewport_height: nat)
    requires
        s.wf(),
        s.search_matches.len() > 0,
    ensures
        s.next_match(viewport_height).prev_match(viewport_height).current_match == s.current_match,
        s.prev_match(viewport_height).next_match(viewport_height).current_match == s.current_match,
{
}

/// After a step to another match its line is on the page.
pub proof fn law_current_match_is_on_the_page(s: ViewStateView, viewport_height: nat)
    requires
        s.wf(),
        s.search_matches.len() > 0,
        viewport_height > 0,
    ensures
        ({
            let n = s.next_match(viewport_height);
            let p = s.prev_match(viewport_height);
            &&& n.scroll_offset <= n.search_matches[n.current_match as int] < n.scroll_offset
                + viewport_height
            &&& p.scroll_offset <= p.search_matches[p.current_match as int] < p.scroll_offset
                + viewport_height
        }),
{
}

/// Scrolling leaves the page full wherever there is enough to fill it.
pub proof fn law_scrolling_down_keeps_the_page_full(
    s: ViewStateView,
    amount: nat,
    viewport_height: nat,
)
    ensures
        s.scrolled_down(amount, viewport_height).scroll_offset <= s.max_scroll(viewport_height),
{
}

/// Every step of the viewer keeps its invariant.
pub proof fn law_view_steps_keep_the_invariant(
    s: ViewStateView,
    c: char,
    line: nat,
    lines: Seq<RenderedLine>,
    entries: Seq<LogEntry>,
    viewport_height: nat,
)
    requires
        s.wf(),
    ensures
        s.scrolled_to(line).wf(),
        s.search_started().wf(),
        s.search_char_typed(c).wf(),
        s.search_char_erased().wf(),
        s.search_confirmed().wf(),
        s.search_cleared().wf(),
        s.next_match(viewport_height).wf(),
        s.prev_match(viewport_height).wf(),
        s.showing(lines, viewport_height).wf(),
        s.with_entries(entries).wf(),
{
}

/// Cycling through the tool display modes three times comes back to the first.
pub proof fn law_tool_display_cycles(mode: ToolDisplayMode)
    ensures
        mode.spec_next().spec_next().spec_next() == mode,
        mode.spec_next() != mode,
        mode.spec_next().spec_next() != mode,
{
}

/// A query in the viewer lists the lines that hold it in lower case and goes to the first of
/// them; where there is none, or nothing is asked for, the page stays where it was.
pub proof fn law_query_goes_to_its_first_match(s: ViewStateView, query: Seq<char>)
    ensures
        ({
            let t = s.searched(query);
            let found = match_lines(lines_view(s.rendered_lines), lowercase(query));
            &&& t.search_query == query
            &&& lowercase(query).len() == 0 ==> t.search_matches.len() == 0
            &&& lowercase(query).len() > 0 ==> t.search_matches == found
            &&& t.search_matches.len() > 0 ==> t.current_match == 0 && t.scroll_offset == found[0]
            &&& t.search_matches.len() == 0 ==> t.scroll_offset == s.scroll_offset
            &&& t.rendered_lines == s.rendered_lines && t.total_lines == s.total_lines
            &&& t.search_mode == s.search_mode && t.conversation_path == s.conversation_path
            &&& t.tool_display == s.tool_display && t.show_thinking == s.show_thinking
            &&& t.show_timing == s.show_timing && t.cached_entries == s.cached_entries
        }),
{
}

/// Going to a match leaves the page where it is while the match is on it, and else begins the
/// page with the match.
pub proof fn law_pages_move_only_for_matches_off_them(s: ViewStateView, viewport_height: nat)
    requires
        s.wf(),
        s.search_matches.len() > 0,
    ensures
        ({
            let t = s.next_match(viewport_height);
            let u = s.prev_match(viewport_height);
            let a = s.search_matches[t.current_match as int];
            let b = s.search_matches[u.current_match as int];
            &&& s.scroll_offset <= a < s.scroll_offset + viewport_height ==> t.scroll_offset
                == s.scroll_offset
            &&& !(s.scroll_offset <= a < s.scroll_offset + viewport_height) ==> t.scroll_offset
                == a
            &&& s.scroll_offset <= b < s.scroll_offset + viewport_height ==> u.scroll_offset
                == s.scroll_offset
            &&& !(s.scroll_offset <= b < s.scroll_offset + viewport_height) ==> u.scroll_offset
                == b
            &&& t.search_matches == s.search_matches && u.search_matches == s.search_matches
        }),
{
}

} // verus!
