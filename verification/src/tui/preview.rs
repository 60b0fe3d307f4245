//! Right-pane preview rendering: header metadata and the conversation body.

use crate::history::grouping::ProjectGroup;
use crate::history::{Conversation, ProviderKind, ToolName};
use crate::numbers::{millions, millions_text};
use crate::paths::{opt_text, path_id, same_path, spec_strip_prefix, strip_prefix};
use crate::text::{
    all_digits, can_cut, chars_of, clip, clipped, concat, cut_off, cut_text, decimal, decimal_text,
    is_digit, join, joined, pad_left, pad_right, padded_left, padded_right, repeat_char, repeated,
    same_text, starts_with, texts, trim, trimmed,
};
use crate::time::{
    format_minute, local_now, minute_text, nanos_between, nanoseconds_between, Timestamp,
};
use crate::tui::lines::{colored, lines_view, unstyled, LineStyle, RenderedLine};
use crate::tui::requests::{preview_label, provider_color, provider_label};
use crate::tui::view_state::minus;
use vstd::prelude::*;

verus! {

/// What a line shows.
pub type LineView = Seq<(Seq<char>, LineStyle)>;

/// What the surroundings say of the project shown in the preview pane.
#[derive(Debug)]
pub struct PreviewFacts {
    /// What the tool of the first provider is called.
    pub tool: ToolName,
    /// Whether the project's directory is still there.
    pub project_exists: bool,
    /// The user's home directory, where it is known.
    pub home: Option<String>,
    /// The current branch of the project, where it has one.
    pub branch: Option<String>,
}

/// The branches of the projects that were looked up.
#[derive(Debug)]
pub struct BranchCache {
    known: Vec<(String, Option<String>)>,
}

/// The branch of a path, among the last `n` that were looked up.
pub open spec fn lookup_branch(known: Seq<(Seq<char>, Option<Seq<char>>)>, path: Seq<char>)
    -> Option<Option<Seq<char>>>
    decreases known.len(),
{
    if known.len() == 0 {
        None
    } else if path_id(known.last().0) == path_id(path) {
        Some(known.last().1)
    } else {
        lookup_branch(known.drop_last(), path)
    }
}

impl View for BranchCache {
    type V = Seq<(Seq<char>, Option<Seq<char>>)>;

    closed spec fn view(&self) -> Seq<(Seq<char>, Option<Seq<char>>)> {
        self.known@.map_values(|e: (String, Option<String>)| (e.0@, opt_text(e.1)))
    }
}

/// The branch that `git rev-parse --abbrev-ref HEAD` tells: what it printed, unless that is
/// nothing or a detached head.
pub open spec fn branch_told(printed: Option<Seq<char>>) -> Option<Seq<char>> {
    match printed {
        Some(text) => if trimmed(text).len() == 0 || trimmed(text) == "HEAD"@ {
            None
        } else {
            Some(trimmed(text))
        },
        None => None,
    }
}

/// The branch that `git` tells; `printed` is what it printed, where it succeeded.
pub fn branch_from_output(printed: &Option<String>) -> (r: Option<String>)
    ensures
        opt_text(r) == branch_told(opt_text(*printed)),
{
    let Some(text) = printed else { return None };
    let name: String = trim(text.as_str());
    if name.as_str().unicode_len() == 0 || same_text(name.as_str(), "HEAD") {
        None
    } else {
        Some(name)
    }
}

impl BranchCache {
    pub fn new() -> (r: BranchCache)
        ensures
            r@ == Seq::<(Seq<char>, Option<Seq<char>>)>::empty(),
    {
        let r = BranchCache { known: Vec::new() };
        assert(r@ =~= Seq::<(Seq<char>, Option<Seq<char>>)>::empty());
        r
    }

    /// The branch of a project, where it was looked up before.
    pub fn project_branch(&self, path: &str) -> (r: Option<Option<String>>)
        ensures
            match r {
                Some(b) => lookup_branch(self@, path@) == Some(opt_text(b)),
                None => lookup_branch(self@, path@) is None,
            },
    {
        let mut i: usize = self.known.len();
        assert(self@.take(self@.len() as int) =~= self@);
        while i > 0
            invariant
                i <= self.known@.len(),
                self@.len() == self.known@.len(),
                lookup_branch(self@, path@) == lookup_branch(self@.take(i as int), path@),
            decreases i,
        {
            let ghost front = self@.take(i as int);
            i = i - 1;
            assert(front.drop_last() =~= self@.take(i as int));
            assert(front.last() == (self.known@[i as int].0@, opt_text(self.known@[i as int].1)));
            if same_path(self.known[i].0.as_str(), path) {
                return Some(
                    match &self.known[i].1 {
                        Some(b) => Some(b.clone()),
                        None => None,
                    },
                );
            }
        }
        None
    }

    /// Keep the branch of a project.
    pub fn remember(&mut self, path: String, branch: Option<String>)
        ensures
            final(self)@ == old(self)@.push((path@, opt_text(branch))),
    {
        let ghost before = self@;
        self.known.push((path, branch));
        assert(self@ =~= before.push((path@, opt_text(branch))));
    }
}

/// A branch that was kept is the one told afterwards, for that path; other paths are not
/// affected.
pub proof fn law_branches_are_remembered(
    known: Seq<(Seq<char>, Option<Seq<char>>)>,
    path: Seq<char>,
    branch: Option<Seq<char>>,
    other: Seq<char>,
)
    ensures
        lookup_branch(known.push((path, branch)), path) == Some(branch),
        path_id(other) != path_id(path) ==> lookup_branch(known.push((path, branch)), other)
            == lookup_branch(known, other),
{
    assert(known.push((path, branch)).drop_last() =~= known);
}

// Pieces of lines

pub open spec fn label_span(text: Seq<char>) -> (Seq<char>, LineStyle) {
    (padded_right(text, 9), colored((140, 140, 140)))
}

pub open spec fn header(label: Seq<char>, val: Seq<char>, color: (u8, u8, u8)) -> LineView {
    seq![label_span(label), (val, colored(color))]
}

pub open spec fn blank() -> LineView {
    Seq::empty()
}

pub open spec fn ruled(width: nat) -> LineView {
    seq![(repeated('\u{2500}', width), colored((60, 60, 60)))]
}

/// Text in a color.
fn span(text: String, color: (u8, u8, u8)) -> (r: (String, LineStyle))
    ensures
        r.0 == text,
        r.1 == colored(color),
{
    (text, LineStyle { fg: Some(color), bold: false, dimmed: false, italic: false })
}

/// Text in no color.
fn plain_span(text: &str) -> (r: (String, LineStyle))
    ensures
        r.0@ == text@,
        r.1 == unstyled(),
{
    (text.to_owned(), LineStyle { fg: None, bold: false, dimmed: false, italic: false })
}

/// The style of titles.
pub open spec fn title_style() -> LineStyle {
    LineStyle { fg: Some((78, 201, 176)), bold: true, dimmed: false, italic: false }
}

/// Text in the style of titles.
fn title_span(text: String) -> (r: (String, LineStyle))
    ensures
        r.0 == text,
        r.1 == title_style(),
{
    (text, LineStyle { fg: Some((78, 201, 176)), bold: true, dimmed: false, italic: false })
}

fn line_of_one(a: (String, LineStyle)) -> (r: RenderedLine)
    ensures
        r@ == seq![(a.0@, a.1)],
{
    let mut spans: Vec<(String, LineStyle)> = Vec::new();
    spans.push(a);
    let r = RenderedLine { spans };
    assert(r@ =~= seq![(a.0@, a.1)]);
    r
}

fn line_of_two(a: (String, LineStyle), b: (String, LineStyle)) -> (r: RenderedLine)
    ensures
        r@ == seq![(a.0@, a.1), (b.0@, b.1)],
{
    let mut spans: Vec<(String, LineStyle)> = Vec::new();
    spans.push(a);
    spans.push(b);
    let r = RenderedLine { spans };
    assert(r@ =~= seq![(a.0@, a.1), (b.0@, b.1)]);
    r
}

fn header_line(label_text: &str, val: String, val_color: (u8, u8, u8)) -> (r: RenderedLine)
    ensures
        r@ == header(label_text@, val@, val_color),
{
    line_of_two(span(pad_right(label_text, 9), (140, 140, 140)), span(val, val_color))
}

fn empty_line() -> (r: RenderedLine)
    ensures
        r@ == blank(),
{
    let r = RenderedLine { spans: Vec::new() };
    assert(r@ =~= blank());
    r
}

fn rule(width: usize) -> (r: RenderedLine)
    ensures
        r@ == ruled(width as nat),
{
    line_of_one(span(repeat_char('\u{2500}', width), (60, 60, 60)))
}

fn push_line(lines: &mut Vec<RenderedLine>, line: RenderedLine)
    ensures
        lines_view(final(lines)@) == lines_view(old(lines)@).push(line@),
{
    let ghost before = lines@;
    lines.push(line);
    assert(lines_view(lines@) =~= lines_view(before).push(line@));
}

fn push_lines(lines: &mut Vec<RenderedLine>, more: Vec<RenderedLine>)
    ensures
        lines_view(final(lines)@) == lines_view(old(lines)@) + lines_view(more@),
{
    let ghost before = lines@;
    let mut more: Vec<RenderedLine> = more;
    let ghost added = more@;
    lines.append(&mut more);
    assert(lines_view(lines@) =~= lines_view(before) + lines_view(added));
}

/// A line where there is something to show in it.
pub open spec fn only_if(shown: bool, line: LineView) -> Seq<LineView> {
    if shown {
        seq![line]
    } else {
        Seq::empty()
    }
}

// Values

/// A number of tokens: in millions, in thousands, or as it is.
pub open spec fn token_text(tokens: nat) -> Seq<char> {
    if tokens >= 1_000_000 {
        millions(tokens).push('M')
    } else if tokens >= 1_000 {
        decimal(tokens / 1_000).push('k')
    } else {
        decimal(tokens)
    }
}

pub fn format_tokens(tokens: u64) -> (r: String)
    ensures
        r@ == token_text(tokens as nat),
{
    if tokens >= 1_000_000 {
        let mut out: String = millions_text(tokens);
        out.push('M');
        out
    } else if tokens >= 1_000 {
        let mut out: String = decimal_text(tokens / 1_000);
        out.push('k');
        out
    } else {
        decimal_text(tokens)
    }
}

/// A number of minutes, in hours and minutes from one hour on.
pub open spec fn duration_text(minutes: nat) -> Seq<char> {
    if minutes >= 60 {
        decimal(minutes / 60) + "h "@ + decimal(minutes % 60) + "m"@
    } else {
        decimal(minutes) + "m"@
    }
}

pub fn format_duration(minutes: u64) -> (r: String)
    ensures
        r@ == duration_text(minutes as nat),
{
    if minutes >= 60 {
        let mut out: String = decimal_text(minutes / 60);
        out.append("h ");
        out.append(decimal_text(minutes % 60).as_str());
        out.append("m");
        out
    } else {
        let mut out: String = decimal_text(minutes);
        out.append("m");
        out
    }
}

/// A session id, cut where it is long.
pub fn truncate_id(id: &str) -> (r: String)
    requires
        can_cut(id@, 13, 12),
    ensures
        r@ == cut_off(id@, 13, 12),
{
    cut_text(id, 13, 12)
}

/// A path, with the home directory written as `~`.
pub open spec fn path_text(path: Seq<char>, home: Option<Seq<char>>) -> Seq<char> {
    match home {
        Some(h) => match spec_strip_prefix(path, h) {
            Some(rest) => "~/"@ + rest,
            None => path,
        },
        None => path,
    }
}

pub fn short_path(path: &str, home: &Option<String>) -> (r: String)
    ensures
        r@ == path_text(path@, opt_text(*home)),
{
    if let Some(h) = home {
        if let Some(rest) = strip_prefix(path, h.as_str()) {
            return concat("~/", rest.as_str());
        }
    }
    path.to_owned()
}

/// Whether `model` is `prefix` followed by nothing but digits.
pub open spec fn is_model(model: Seq<char>, prefix: Seq<char>) -> bool {
    prefix.is_prefix_of(model) && all_digits(model.skip(prefix.len() as int))
}

/// The short name of a model: that of a known family of the vendor, else the name itself, cut
/// where it is long.
pub open spec fn model_text(model: Seq<char>, vendor: Seq<char>) -> Seq<char> {
    if is_model(model, vendor + "-opus-4-5-"@) {
        "opus-4.5"@
    } else if is_model(model, vendor + "-opus-4-7-"@) {
        "opus-4.7"@
    } else if is_model(model, vendor + "-sonnet-4-6-"@) {
        "sonnet-4.6"@
    } else if is_model(model, vendor + "-sonnet-4-"@) {
        "sonnet-4"@
    } else if is_model(model, vendor + "-3-5-sonnet-"@) {
        "sonnet-3.5"@
    } else if is_model(model, vendor + "-3-5-haiku-"@) {
        "haiku-3.5"@
    } else if is_model(model, vendor + "-3-opus-"@) {
        "opus-3"@
    } else if is_model(model, vendor + "-3-sonnet-"@) {
        "sonnet-3"@
    } else if is_model(model, vendor + "-3-haiku-"@) {
        "haiku-3"@
    } else {
        cut_off(model, 20, 19)
    }
}

fn has_digits_after(model: &str, prefix: &str) -> (r: bool)
    ensures
        r == is_model(model@, prefix@),
{
    if !starts_with(model, prefix) {
        return false;
    }
    let chars: Vec<char> = chars_of(model);
    let start: usize = prefix.unicode_len();
    let ghost rest = model@.skip(prefix@.len() as int);
    for i in start..chars.len()
        invariant
            chars@ == model@,
            start == prefix@.len(),
            start <= chars@.len(),
            rest == model@.skip(start as int),
            forall|k: int| 0 <= k < i - start ==> is_digit(#[trigger] rest[k]),
    {
        let c: char = chars[i];
        assert(rest[i - start] == c);
        if !('0' <= c && c <= '9') {
            assert(!is_digit(rest[i - start]));
            return false;
        }
    }
    true
}

fn has_model_prefix(model: &str, vendor: &str, family: &str) -> (r: bool)
    ensures
        r == is_model(model@, vendor@ + family@),
{
    let prefix: String = concat(vendor, family);
    has_digits_after(model, prefix.as_str())
}

pub fn format_model_short(model: &str, vendor: &str) -> (r: String)
    requires
        can_cut(model@, 20, 19),
    ensures
        r@ == model_text(model@, vendor@),
{
    if has_model_prefix(model, vendor, "-opus-4-5-") {
        return "opus-4.5".to_owned();
    }
    if has_model_prefix(model, vendor, "-opus-4-7-") {
        return "opus-4.7".to_owned();
    }
    if has_model_prefix(model, vendor, "-sonnet-4-6-") {
        return "sonnet-4.6".to_owned();
    }
    if has_model_prefix(model, vendor, "-sonnet-4-") {
        return "sonnet-4".to_owned();
    }
    if has_model_prefix(model, vendor, "-3-5-sonnet-") {
        return "sonnet-3.5".to_owned();
    }
    if has_model_prefix(model, vendor, "-3-5-haiku-") {
        return "haiku-3.5".to_owned();
    }
    if has_model_prefix(model, vendor, "-3-opus-") {
        return "opus-3".to_owned();
    }
    if has_model_prefix(model, vendor, "-3-sonnet-") {
        return "sonnet-3".to_owned();
    }
    if has_model_prefix(model, vendor, "-3-haiku-") {
        return "haiku-3".to_owned();
    }
    cut_text(model, 20, 19)
}

/// The status of a conversation, given the nanoseconds since its last activity: a glyph, a word
/// and a color. A conversation is active up to ten minutes after that and recent up to two hours.
pub open spec fn status_of(has_errors: bool, project_gone: bool, nanos: int) -> (
    Seq<char>,
    Seq<char>,
    (u8, u8, u8),
) {
    if has_errors {
        ("\u{2717}"@, "parse errors"@, (220, 90, 90))
    } else if project_gone {
        ("\u{2717}"@, "project deleted"@, (220, 90, 90))
    } else if nanos <= 600_000_000_000 {
        ("\u{25cf}"@, "active"@, (120, 200, 130))
    } else if nanos <= 7_200_000_000_000 {
        ("\u{25d0}"@, "recent"@, (220, 190, 100))
    } else {
        ("\u{25cb}"@, "idle"@, (120, 120, 120))
    }
}

/// The status of a conversation at a given time.
pub open spec fn conversation_status(conv: &Conversation, project_exists: bool, now: Timestamp) -> (
    Seq<char>,
    Seq<char>,
    (u8, u8, u8),
) {
    status_of(
        conv.parse_errors@.len() > 0,
        conv.project_path is Some && !project_exists,
        nanos_between(now, conv.timestamp),
    )
}

/// Status line for the conversation at the present time: glyph, label and color.
pub fn status_for(conv: &Conversation, project_exists: bool) -> (r: (
    &'static str,
    &'static str,
    (u8, u8, u8),
))
    requires
        conv.timestamp.wf(),
    ensures
        exists|now: Timestamp|
            now.wf() && now.secs >= 0 && (r.0@, r.1@, r.2) == #[trigger] conversation_status(
                conv,
                project_exists,
                now,
            ),
{
    status_at(conv, project_exists, local_now())
}

/// Status line for the conversation at a given time.
pub fn status_at(conv: &Conversation, project_exists: bool, now: Timestamp) -> (r: (
    &'static str,
    &'static str,
    (u8, u8, u8),
))
    requires
        conv.timestamp.wf(),
        now.wf(),
    ensures
        (r.0@, r.1@, r.2) == conversation_status(conv, project_exists, now),
{
    if conv.parse_errors.len() > 0 {
        return ("\u{2717}", "parse errors", (220, 90, 90));
    }
    if conv.project_path.is_some() && !project_exists {
        return ("\u{2717}", "project deleted", (220, 90, 90));
    }
    let nanos: i128 = nanoseconds_between(now, conv.timestamp);
    if nanos <= 600_000_000_000 {
        ("\u{25cf}", "active", (120, 200, 130))
    } else if nanos <= 7_200_000_000_000 {
        ("\u{25d0}", "recent", (220, 190, 100))
    } else {
        ("\u{25cb}", "idle", (120, 120, 120))
    }
}

// The preview of a conversation

/// The name of a conversation's project.
pub open spec fn project_title(conv: &Conversation) -> Seq<char> {
    match conv.project_name {
        Some(n) => n@,
        None => "(unknown)"@,
    }
}

/// The first line: project, status and provider.
pub open spec fn title_line(conv: &Conversation, facts: PreviewFacts, now: Timestamp) -> LineView {
    let (glyph, label, color) = conversation_status(conv, facts.project_exists, now);
    seq![
        (project_title(conv), title_style()),
        ("  "@, unstyled()),
        (glyph, colored(color)),
        (" "@, unstyled()),
        (label, colored(color)),
        ("  "@, unstyled()),
        (preview_label(conv.provider, &facts.tool), colored(provider_color(conv.provider))),
    ]
}

/// The number of messages, and how long the conversation took where that is known.
pub open spec fn messages_text(conv: &Conversation) -> Seq<char> {
    match conv.duration_minutes {
        Some(m) => decimal(conv.message_count as nat) + " msgs \u{b7} "@ + duration_text(m as nat),
        None => decimal(conv.message_count as nat) + " msgs"@,
    }
}

/// Where the project is, and its branch.
pub open spec fn path_lines(path: Option<Seq<char>>, facts: PreviewFacts) -> Seq<LineView> {
    match path {
        Some(p) => seq![header("path:"@, path_text(p, opt_text(facts.home)), (200, 200, 200))]
            + match facts.branch {
            Some(b) => seq![header("branch:"@, b@, (180, 140, 200))],
            None => Seq::empty(),
        },
        None => Seq::empty(),
    }
}

/// Whether the working directory is worth a line of its own.
pub open spec fn cwd_differs(conv: &Conversation) -> bool {
    match (conv.cwd, conv.project_path) {
        (Some(c), Some(p)) => path_id(c@) != path_id(p@),
        (Some(_), None) => true,
        _ => false,
    }
}

/// The lines above the body at a given time; `updated` is the time of the last activity.
pub open spec fn preview_head(
    conv: &Conversation,
    facts: PreviewFacts,
    now: Timestamp,
    updated: Seq<char>,
) -> Seq<LineView> {
    let gray: (u8, u8, u8) = (140, 140, 140);
    seq![title_line(conv, facts, now), blank()] + path_lines(
        opt_text(conv.project_path),
        facts,
    ) + only_if(
        cwd_differs(conv),
        header("cwd:"@, path_text(opt_text(conv.cwd)->0, opt_text(facts.home)), (200, 200, 200)),
    ) + seq![header("session:"@, cut_off(conv.id@, 13, 12), gray)] + only_if(
        conv.model is Some,
        header("model:"@, model_text(opt_text(conv.model)->0, facts.tool.command@), (180, 140, 200)),
    ) + only_if(
        conv.total_tokens > 0,
        header("tokens:"@, token_text(conv.total_tokens as nat), gray),
    ) + seq![
        header("messages:"@, messages_text(conv), gray),
        header("updated:"@, updated, gray),
    ]
}

/// The summary, set off by an empty line.
pub open spec fn summary_lines(conv: &Conversation) -> Seq<LineView> {
    match conv.summary {
        Some(s) => if s@.len() > 0 {
            seq![blank(), seq![(s@, colored((200, 200, 200)))]]
        } else {
            Seq::empty()
        },
        None => Seq::empty(),
    }
}

/// The rule between the header and the body, at least twenty characters wide.
pub open spec fn rule_lines(width: nat) -> Seq<LineView> {
    seq![
        blank(),
        ruled(
            if width >= 20 {
                width
            } else {
                20
            },
        ),
        blank(),
    ]
}

/// What a rendered transcript shows, where there is one.
pub open spec fn body_view(body: Option<Vec<RenderedLine>>) -> Option<Seq<LineView>> {
    match body {
        Some(lines) => Some(lines_view(lines@)),
        None => None,
    }
}

/// The body, or that it could not be read.
pub open spec fn body_lines(body: Option<Seq<LineView>>) -> Seq<LineView> {
    match body {
        Some(lines) => lines,
        None => seq![seq![("(failed to read conversation file)"@, colored((220, 90, 90)))]],
    }
}

/// The preview of a conversation at a given time; `updated` is the time of its last activity.
pub open spec fn preview_of(
    conv: &Conversation,
    facts: PreviewFacts,
    now: Timestamp,
    width: nat,
    body: Option<Seq<LineView>>,
    updated: Seq<char>,
) -> Seq<LineView> {
    preview_head(conv, facts, now, updated) + summary_lines(conv) + rule_lines(width) + body_lines(body)
}

/// Whether the id and the model of a conversation can be shortened.
pub open spec fn can_preview(conv: &Conversation) -> bool {
    &&& conv.wf()
    &&& can_cut(conv.id@, 13, 12)
    &&& conv.model matches Some(m) ==> can_cut(m@, 20, 19)
}

fn push_title_line(
    lines: &mut Vec<RenderedLine>,
    conv: &Conversation,
    facts: &PreviewFacts,
    now: Timestamp,
)
    requires
        conv.wf(),
        now.wf(),
    ensures
        lines_view(final(lines)@) == lines_view(old(lines)@).push(title_line(conv, *facts, now)),
{
    let (glyph, status_label, status_color) = status_at(conv, facts.project_exists, now);
    let project_label: String = match &conv.project_name {
        Some(n) => n.clone(),
        None => "(unknown)".to_owned(),
    };
    let color: (u8, u8, u8) = match conv.provider {
        ProviderKind::Claude => (218, 119, 86),
        ProviderKind::Cursor => (180, 130, 230),
        ProviderKind::CursorAgent => (94, 184, 255),
    };
    let mut spans: Vec<(String, LineStyle)> = Vec::new();
    spans.push(title_span(project_label));
    spans.push(plain_span("  "));
    spans.push(span(glyph.to_owned(), status_color));
    spans.push(plain_span(" "));
    spans.push(span(status_label.to_owned(), status_color));
    spans.push(plain_span("  "));
    spans.push(span(provider_label(conv.provider, &facts.tool).to_owned(), color));
    let line = RenderedLine { spans };
    assert(line@ =~= title_line(conv, *facts, now));
    push_line(lines, line);
}

fn push_path_lines(lines: &mut Vec<RenderedLine>, path: &Option<String>, facts: &PreviewFacts)
    ensures
        lines_view(final(lines)@) == lines_view(old(lines)@) + path_lines(opt_text(*path), *facts),
{
    let ghost before = lines_view(lines@);
    if let Some(p) = path {
        push_line(
            lines,
            header_line("path:", short_path(p.as_str(), &facts.home), (200, 200, 200)),
        );
        if let Some(branch) = &facts.branch {
            push_line(lines, header_line("branch:", branch.clone(), (180, 140, 200)));
        }
    }
    assert(lines_view(lines@) =~= before + path_lines(opt_text(*path), *facts));
}

fn message_line_text(conv: &Conversation) -> (r: String)
    ensures
        r@ == messages_text(conv),
{
    let mut out: String = decimal_text(conv.message_count as u64);
    match conv.duration_minutes {
        Some(m) => {
            out.append(" msgs \u{b7} ");
            out.append(format_duration(m).as_str());
        },
        None => {
            out.append(" msgs");
        },
    }
    out
}

fn build_preview_head(
    conv: &Conversation,
    facts: &PreviewFacts,
    now: Timestamp,
    updated: String,
) -> (r: Vec<RenderedLine>)
    requires
        can_preview(conv),
        now.wf(),
    ensures
        lines_view(r@) == preview_head(conv, *facts, now, updated@),
{
    let mut lines: Vec<RenderedLine> = Vec::new();
    assert(lines_view(lines@) =~= Seq::<LineView>::empty());
    // Title row: project and status
    push_title_line(&mut lines, conv, facts, now);
    push_line(&mut lines, empty_line());

    // Path, branch, session, model, tokens and so on
    push_path_lines(&mut lines, &conv.project_path, facts);
    let show_cwd: bool = match (&conv.cwd, &conv.project_path) {
        (Some(c), Some(p)) => !same_path(c.as_str(), p.as_str()),
        (Some(_), None) => true,
        _ => false,
    };
    if show_cwd {
        if let Some(cwd) = &conv.cwd {
            push_line(
                &mut lines,
                header_line("cwd:", short_path(cwd.as_str(), &facts.home), (200, 200, 200)),
            );
        }
    }
    push_line(
        &mut lines,
        header_line("session:", truncate_id(conv.id.as_str()), (140, 140, 140)),
    );
    if let Some(model) = &conv.model {
        push_line(
            &mut lines,
            header_line(
                "model:",
                format_model_short(model.as_str(), facts.tool.command.as_str()),
                (180, 140, 200),
            ),
        );
    }
    if conv.total_tokens > 0 {
        push_line(
            &mut lines,
            header_line("tokens:", format_tokens(conv.total_tokens), (140, 140, 140)),
        );
    }
    push_line(&mut lines, header_line("messages:", message_line_text(conv), (140, 140, 140)));
    push_line(&mut lines, header_line("updated:", updated, (140, 140, 140)));
    assert(lines_view(lines@) =~= preview_head(conv, *facts, now, updated@));
    lines
}

fn push_rule_lines(lines: &mut Vec<RenderedLine>, width: usize)
    ensures
        lines_view(final(lines)@) == lines_view(old(lines)@) + rule_lines(width as nat),
{
    let ghost before = lines_view(lines@);
    push_line(lines, empty_line());
    push_line(
        lines,
        rule(
            if width >= 20 {
                width
            } else {
                20
            },
        ),
    );
    push_line(lines, empty_line());
    assert(lines_view(lines@) =~= before + rule_lines(width as nat));
}

/// Build the preview content for a conversation: styled lines for the right pane. `body` is
/// the rendered transcript, where it could be read.
pub fn build_preview(
    conv: &Conversation,
    facts: &PreviewFacts,
    content_width: usize,
    body: Option<Vec<RenderedLine>>,
) -> (r: Vec<RenderedLine>)
    requires
        can_preview(conv),
    ensures
        exists|now: Timestamp|
            now.wf() && now.secs >= 0 && lines_view(r@) == #[trigger] preview_of(
                conv,
                *facts,
                now,
                content_width as nat,
                body_view(body),
                minute_text(conv.timestamp),
            ),
{
    let now: Timestamp = local_now();
    build_preview_at(conv, facts, now, content_width, body, format_minute(conv.timestamp))
}

/// The preview content for a conversation at a given time; `updated` is the time of its last
/// activity.
pub fn build_preview_at(
    conv: &Conversation,
    facts: &PreviewFacts,
    now: Timestamp,
    content_width: usize,
    body: Option<Vec<RenderedLine>>,
    updated: String,
) -> (r: Vec<RenderedLine>)
    requires
        can_preview(conv),
        now.wf(),
    ensures
        lines_view(r@) == preview_of(
            conv,
            *facts,
            now,
            content_width as nat,
            body_view(body),
            updated@,
        ),
{
    let mut lines: Vec<RenderedLine> = build_preview_head(conv, facts, now, updated);
    let ghost head = lines_view(lines@);
    if let Some(summary) = &conv.summary {
        if summary.as_str().unicode_len() > 0 {
            push_line(&mut lines, empty_line());
            push_line(&mut lines, line_of_one(span(summary.clone(), (200, 200, 200))));
        }
    }
    assert(lines_view(lines@) =~= head + summary_lines(conv));
    push_rule_lines(&mut lines, content_width);

    // Body: full transcript, rendered with the user's current toggles.
    let ghost above = lines_view(lines@);
    match body {
        Some(body_lines) => {
            push_lines(&mut lines, body_lines);
        },
        None => {
            push_line(
                &mut lines,
                line_of_one(
                    span("(failed to read conversation file)".to_owned(), (220, 90, 90)),
                ),
            );
            assert(lines_view(lines@) =~= above + body_lines(None));
        },
    }
    lines
}

// The preview of a group

/// The summary of a conversation, or its preview where it has none.
pub open spec fn link_text(conv: &Conversation) -> Seq<char> {
    match conv.summary {
        Some(s) => if s@.len() > 0 {
            s@
        } else {
            trimmed(conv.preview@)
        },
        None => trimmed(conv.preview@),
    }
}

/// The line of the `i`-th conversation of a group, counted from zero.
pub open spec fn link_line(i: nat, conv: &Conversation, width: nat) -> LineView {
    seq![
        (padded_left(decimal(i + 1), 2) + ". "@, colored((100, 100, 100))),
        (clipped(link_text(conv), minus(width, 8)), colored((200, 200, 200))),
    ]
}

/// The lines of the first `n` conversations of a group.
pub open spec fn link_lines(
    indices: Seq<usize>,
    convs: Seq<Conversation>,
    width: nat,
    n: nat,
) -> Seq<LineView>
    decreases n,
{
    if n == 0 {
        Seq::empty()
    } else {
        let before = link_lines(indices, convs, width, (n - 1) as nat);
        let idx = indices[n - 1];
        if idx < convs.len() {
            before.push(link_line((n - 1) as nat, &convs[idx as int], width))
        } else {
            before
        }
    }
}

/// How many conversations of a group are listed in its preview.
pub const LINK_COUNT: usize = 5;

/// The names of providers.
pub open spec fn provider_names(providers: Seq<ProviderKind>, tool: &ToolName) -> Seq<Seq<char>> {
    providers.map_values(|p: ProviderKind| preview_label(p, tool))
}

/// The preview of a group, given the time of its last activity as text.
pub open spec fn group_preview_of(
    group: ProjectGroup,
    convs: Seq<Conversation>,
    facts: PreviewFacts,
    width: nat,
    last: Seq<char>,
) -> Seq<LineView> {
    let gray: (u8, u8, u8) = (140, 140, 140);
    let indices = group.conversation_indices@;
    let names = joined(provider_names(group.providers@, &facts.tool), ", "@);
    seq![seq![(group.display_name@, title_style())], blank()] + path_lines(
        opt_text(group.canonical_path),
        facts,
    ) + seq![
        header("sessions:"@, decimal(indices.len()), gray),
        header("last:"@, last, gray),
    ] + only_if(names.len() > 0, header("providers:"@, names, gray)) + rule_lines(width)
        + link_lines(
        indices,
        convs,
        width,
        if indices.len() < LINK_COUNT {
            indices.len()
        } else {
            LINK_COUNT as nat
        },
    )
}

fn provider_list(providers: &Vec<ProviderKind>, tool: &ToolName) -> (r: String)
    ensures
        r@ == joined(provider_names(providers@, tool), ", "@),
{
    let mut names: Vec<String> = Vec::new();
    for i in 0..providers.len()
        invariant
            texts(names@) == provider_names(providers@, tool).take(i as int),
    {
        let ghost was = names@;
        names.push(provider_label(providers[i], tool).to_owned());
        assert(texts(names@) =~= texts(was).push(preview_label(providers@[i as int], tool)));
        assert(texts(names@) =~= provider_names(providers@, tool).take(i + 1));
    }
    assert(provider_names(providers@, tool).take(providers@.len() as int) =~= provider_names(
        providers@,
        tool,
    ));
    join(names.as_slice(), ", ")
}

fn build_link_line(i: usize, conv: &Conversation, width: usize) -> (r: RenderedLine)
    requires
        i < LINK_COUNT,
    ensures
        r@ == link_line(i as nat, conv, width as nat),
{
    let summary: String = match &conv.summary {
        Some(s) => if s.as_str().unicode_len() > 0 {
            s.clone()
        } else {
            trim(conv.preview.as_str())
        },
        None => trim(conv.preview.as_str()),
    };
    let room: usize = if width >= 8 {
        width - 8
    } else {
        0
    };
    let mut number: String = pad_left(decimal_text((i + 1) as u64).as_str(), 2);
    number.append(". ");
    line_of_two(
        span(number, (100, 100, 100)),
        span(clip(summary.as_str(), room), (200, 200, 200)),
    )
}

/// Build a preview when a group header is selected (no specific conversation).
pub fn build_group_preview(
    group: &ProjectGroup,
    convs: &[Conversation],
    facts: &PreviewFacts,
    width: usize,
) -> (r: Vec<RenderedLine>)
    requires
        group.last_activity.wf(),
    ensures
        lines_view(r@) == group_preview_of(
            *group,
            convs@,
            *facts,
            width as nat,
            minute_text(group.last_activity),
        ),
{
    build_group_preview_from(group, convs, facts, width, format_minute(group.last_activity))
}

/// The preview of a group, given the time of its last activity as text.
pub fn build_group_preview_from(
    group: &ProjectGroup,
    convs: &[Conversation],
    facts: &PreviewFacts,
    width: usize,
    last: String,
) -> (r: Vec<RenderedLine>)
    ensures
        lines_view(r@) == group_preview_of(*group, convs@, *facts, width as nat, last@),
{
    let mut lines: Vec<RenderedLine> = Vec::new();
    assert(lines_view(lines@) =~= Seq::<LineView>::empty());
    push_line(&mut lines, line_of_one(title_span(group.display_name.clone())));
    push_line(&mut lines, empty_line());
    push_path_lines(&mut lines, &group.canonical_path, facts);
    push_line(
        &mut lines,
        header_line(
            "sessions:",
            decimal_text(group.conversation_indices.len() as u64),
            (140, 140, 140),
        ),
    );
    push_line(
        &mut lines,
        header_line("last:", last, (140, 140, 140)),
    );
    let names: String = provider_list(&group.providers, &facts.tool);
    let shown: bool = names.as_str().unicode_len() > 0;
    if shown {
        push_line(&mut lines, header_line("providers:", names, (140, 140, 140)));
    }
    push_rule_lines(&mut lines, width);
    let ghost head = lines_view(lines@);

    // The first conversations as quick links.
    let count: usize = if group.conversation_indices.len() < LINK_COUNT {
        group.conversation_indices.len()
    } else {
        LINK_COUNT
    };
    for i in 0..count
        invariant
            count <= LINK_COUNT,
            count <= group.conversation_indices@.len(),
            lines_view(lines@) == head + link_lines(
                group.conversation_indices@,
                convs@,
                width as nat,
                i as nat,
            ),
    {
        let idx: usize = group.conversation_indices[i];
        if idx < convs.len() {
            push_line(&mut lines, build_link_line(i, &convs[idx], width));
        }
        assert(lines_view(lines@) =~= head + link_lines(
            group.conversation_indices@,
            convs@,
            width as nat,
            (i + 1) as nat,
        ));
    }
    assert(lines_view(lines@) =~= group_preview_of(
        *group,
        convs@,
        *facts,
        width as nat,
        last@,
    ));
    lines
}

} // verus!
