//! What the preview pane shows.

use crate::history::grouping::ProjectGroup;
use crate::history::{Conversation, ProviderKind};
use crate::paths::{opt_text, path_id};
use crate::text::{
    byte_len, byte_prefix, clipped, cut_off, decimal, law_padding_adds_spaces, trimmed,
};
use crate::time::Timestamp;
use crate::tui::preview::{
    branch_told, conversation_status, cwd_differs, duration_text, group_preview_of, header,
    link_line, link_lines, messages_text, model_text, path_text, preview_head, preview_of,
    summary_lines, title_line, token_text, LineView, PreviewFacts,
};
use crate::tui::requests::preview_label;
use vstd::prelude::*;

verus! {

/// A conversation is shown by its errors first, then by whether its project is gone, and then by
/// how long ago it was active: up to ten minutes it is active, up to two hours recent, and idle
/// after that.
pub proof fn law_status_tells_recency(conv: &Conversation, project_exists: bool, now: Timestamp)
    requires
        conv.timestamp.wf(),
        now.wf(),
        conv.timestamp.nanos == 0,
        now.nanos == 0,
    ensures
        ({
            let (glyph, word, _) = conversation_status(conv, project_exists, now);
            let errors = conv.parse_errors@.len() > 0;
            let gone = conv.project_path is Some && !project_exists;
            let ago = now.secs - conv.timestamp.secs;
            &&& errors ==> glyph == "\u{2717}"@ && word == "parse errors"@
            &&& !errors && gone ==> glyph == "\u{2717}"@ && word == "project deleted"@
            &&& !errors && !gone && ago <= 600 ==> glyph == "\u{25cf}"@ && word == "active"@
            &&& !errors && !gone && 600 < ago <= 7200 ==> glyph == "\u{25d0}"@ && word
                == "recent"@
            &&& !errors && !gone && ago > 7200 ==> glyph == "\u{25cb}"@ && word == "idle"@
        }),
{
    assert(crate::time::nanos_between(now, conv.timestamp) == (now.secs - conv.timestamp.secs)
        * 1_000_000_000);
}

/// A count of tokens is told as it is below a thousand, and in whole thousands below a million.
pub proof fn law_tokens_are_told_in_thousands(tokens: nat)
    ensures
        tokens < 1000 ==> token_text(tokens) == decimal(tokens),
        1000 <= tokens < 1_000_000 ==> token_text(tokens) == decimal(tokens / 1000).push('k'),
        tokens >= 1_000_000 ==> token_text(tokens).last() == 'M' && token_text(tokens).drop_last()
            == crate::numbers::millions(tokens),
{
    if tokens >= 1_000_000 {
        assert(token_text(tokens).drop_last() =~= crate::numbers::millions(tokens));
    }
}

/// Minutes are told in hours and minutes from one hour on.
pub proof fn law_minutes_are_told_in_hours(hours: nat, minutes: nat)
    requires
        minutes < 60,
    ensures
        hours > 0 ==> duration_text(hours * 60 + minutes) == decimal(hours) + "h "@ + decimal(
            minutes,
        ) + "m"@,
        duration_text(minutes) == decimal(minutes) + "m"@,
{
    assert((hours * 60 + minutes) / 60 == hours);
    assert((hours * 60 + minutes) % 60 == minutes);
}

/// A text that is short enough is shown whole, and a longer one by its beginning and an ellipsis.
pub proof fn law_long_texts_are_cut(s: Seq<char>, limit: nat, cut: nat)
    ensures
        byte_len(s) <= limit ==> cut_off(s, limit, cut) == s,
        byte_len(s) > limit && byte_prefix(s, cut) is Some ==> {
            let shown = cut_off(s, limit, cut);
            &&& shown.last() == '\u{2026}'
            &&& shown.drop_last().is_prefix_of(s)
            &&& byte_len(shown.drop_last()) == cut
        },
{
    if byte_len(s) > limit && byte_prefix(s, cut) is Some {
        reveal_strlit("\u{2026}");
        let k = crate::text::chars_in_bytes(s, cut)->0;
        lemma_bytes_of_prefix(s, cut);
        let shown = cut_off(s, limit, cut);
        assert(shown.drop_last() =~= s.take(k as int));
        assert(s.take(k as int) =~= s.subrange(0, k as int));
    }
}

proof fn lemma_bytes_of_prefix(s: Seq<char>, n: nat)
    requires
        crate::text::chars_in_bytes(s, n) is Some,
    ensures
        ({
            let k = crate::text::chars_in_bytes(s, n)->0;
            k <= s.len() && byte_len(s.take(k as int)) == n
        }),
    decreases n,
{
    if n == 0 {
        assert(s.take(0).len() == 0);
    } else {
        let w = crate::text::utf8_width(s[0]);
        let rest = s.skip(1);
        lemma_bytes_of_prefix(rest, (n - w) as nat);
        let k = crate::text::chars_in_bytes(s, n)->0;
        lemma_bytes_behind(s[0], rest.take(k - 1));
        assert(s.take(k as int) =~= seq![s[0]] + rest.take(k - 1));
    }
}

proof fn lemma_bytes_behind(c: char, s: Seq<char>)
    ensures
        byte_len(seq![c] + s) == crate::text::utf8_width(c) + byte_len(s),
    decreases s.len(),
{
    let t = seq![c] + s;
    if s.len() == 0 {
        assert(t.drop_last() =~= Seq::<char>::empty());
        assert(t.last() == c);
        assert(byte_len(Seq::<char>::empty()) == 0);
        assert(byte_len(t) == byte_len(t.drop_last()) + crate::text::utf8_width(t.last()));
    } else {
        lemma_bytes_behind(c, s.drop_last());
        assert(t.drop_last() =~= seq![c] + s.drop_last());
    }
}

/// Whether a line has a label in front and then a value.
pub open spec fn says(line: LineView, label: Seq<char>, value: Seq<char>) -> bool {
    &&& line.len() == 2
    &&& label.is_prefix_of(line[0].0)
    &&& line[1].0 == value
}

/// Whether one of the lines has a label in front and then a value.
pub open spec fn tells(lines: Seq<LineView>, label: Seq<char>, value: Seq<char>) -> bool {
    exists|i: int| 0 <= i < lines.len() && #[trigger] says(lines[i], label, value)
}

proof fn lemma_header_says(label: Seq<char>, value: Seq<char>, color: (u8, u8, u8))
    ensures
        says(header(label, value, color), label, value),
{
    law_padding_adds_spaces(label, 9);
}

proof fn lemma_tells_at(lines: Seq<LineView>, i: int, label: Seq<char>, value: Seq<char>)
    requires
        0 <= i < lines.len(),
        says(lines[i], label, value),
    ensures
        tells(lines, label, value),
{
}

proof fn lemma_tells_in_part(
    a: Seq<LineView>,
    b: Seq<LineView>,
    c: Seq<LineView>,
    label: Seq<char>,
    value: Seq<char>,
)
    requires
        tells(b, label, value),
    ensures
        tells(a + b + c, label, value),
{
    let i = choose|i: int| 0 <= i < b.len() && #[trigger] says(b[i], label, value);
    assert((a + b + c)[a.len() + i] == b[i]);
    lemma_tells_at(a + b + c, a.len() + i, label, value);
}

/// The lines of the first `n` parts.
spec fn all_of(parts: Seq<Seq<LineView>>, n: nat) -> Seq<LineView>
    decreases n,
{
    if n == 0 {
        Seq::empty()
    } else {
        all_of(parts, (n - 1) as nat) + parts[n - 1]
    }
}

proof fn lemma_all_of_tells(
    parts: Seq<Seq<LineView>>,
    n: nat,
    k: int,
    i: int,
    label: Seq<char>,
    value: Seq<char>,
)
    requires
        0 <= k < n <= parts.len(),
        0 <= i < parts[k].len(),
        says(parts[k][i], label, value),
    ensures
        tells(all_of(parts, n), label, value),
    decreases n,
{
    let before = all_of(parts, (n - 1) as nat);
    let all = all_of(parts, n);
    if k == n - 1 {
        assert(all[before.len() + i] == parts[k][i]);
        lemma_tells_at(all, before.len() + i, label, value);
    } else {
        lemma_all_of_tells(parts, (n - 1) as nat, k, i, label, value);
        let j = choose|j: int| 0 <= j < before.len() && #[trigger] says(before[j], label, value);
        assert(all[j] == before[j]);
        lemma_tells_at(all, j, label, value);
    }
}

/// The parts of the lines above the body.
spec fn head_parts(
    conv: &Conversation,
    facts: PreviewFacts,
    now: Timestamp,
    updated: Seq<char>,
) -> Seq<Seq<LineView>> {
    let gray: (u8, u8, u8) = (140, 140, 140);
    seq![
        seq![title_line(conv, facts, now), crate::tui::preview::blank()],
        crate::tui::preview::path_lines(opt_text(conv.project_path), facts),
        crate::tui::preview::only_if(
            cwd_differs(conv),
            header(
                "cwd:"@,
                path_text(opt_text(conv.cwd)->0, opt_text(facts.home)),
                (200, 200, 200),
            ),
        ),
        seq![header("session:"@, cut_off(conv.id@, 13, 12), gray)],
        crate::tui::preview::only_if(
            conv.model is Some,
            header(
                "model:"@,
                model_text(opt_text(conv.model)->0, facts.tool.command@),
                (180, 140, 200),
            ),
        ),
        crate::tui::preview::only_if(
            conv.total_tokens > 0,
            header("tokens:"@, token_text(conv.total_tokens as nat), gray),
        ),
        seq![
            header("messages:"@, messages_text(conv), gray),
            header("updated:"@, updated, gray),
        ],
    ]
}

proof fn lemma_head_is_its_parts(
    conv: &Conversation,
    facts: PreviewFacts,
    now: Timestamp,
    updated: Seq<char>,
)
    ensures
        preview_head(conv, facts, now, updated) == all_of(
            head_parts(conv, facts, now, updated),
            7,
        ),
        preview_head(conv, facts, now, updated)[0] == title_line(conv, facts, now),
{
    let parts = head_parts(conv, facts, now, updated);
    lemma_all_of_seven(parts);
    let head = preview_head(conv, facts, now, updated);
    assert(head == parts[0] + parts[1] + parts[2] + parts[3] + parts[4] + parts[5] + parts[6]);
    assert(head[0] == parts[0][0]);
}

proof fn lemma_all_of_seven(parts: Seq<Seq<LineView>>)
    requires
        parts.len() == 7,
    ensures
        all_of(parts, 7) == parts[0] + parts[1] + parts[2] + parts[3] + parts[4] + parts[5]
            + parts[6],
{
    reveal_with_fuel(all_of, 8);
    assert(Seq::<LineView>::empty() + parts[0] =~= parts[0]);
}

proof fn lemma_head_tells(
    conv: &Conversation,
    facts: PreviewFacts,
    now: Timestamp,
    updated: Seq<char>,
)
    ensures
        ({
            let head = preview_head(conv, facts, now, updated);
            &&& head[0] == title_line(conv, facts, now)
            &&& conv.project_path matches Some(p) ==> tells(
                head,
                "path:"@,
                path_text(p@, opt_text(facts.home)),
            )
            &&& conv.project_path is Some && facts.branch is Some ==> tells(
                head,
                "branch:"@,
                facts.branch->0@,
            )
            &&& cwd_differs(conv) ==> tells(
                head,
                "cwd:"@,
                path_text(conv.cwd->0@, opt_text(facts.home)),
            )
            &&& tells(head, "session:"@, cut_off(conv.id@, 13, 12))
            &&& conv.model is Some ==> tells(
                head,
                "model:"@,
                model_text(conv.model->0@, facts.tool.command@),
            )
            &&& conv.total_tokens > 0 ==> tells(
                head,
                "tokens:"@,
                token_text(conv.total_tokens as nat),
            )
            &&& tells(head, "messages:"@, messages_text(conv))
            &&& tells(head, "updated:"@, updated)
        }),
{
    let parts = head_parts(conv, facts, now, updated);
    let home = opt_text(facts.home);
    let gray: (u8, u8, u8) = (140, 140, 140);
    lemma_head_is_its_parts(conv, facts, now, updated);
    assert(parts.len() == 7);
    match conv.project_path {
        Some(p) => {
            let value = path_text(p@, home);
            lemma_header_says("path:"@, value, (200, 200, 200));
            assert(parts[1][0] == header("path:"@, value, (200, 200, 200)));
            lemma_all_of_tells(parts, 7, 1, 0, "path:"@, value);
            if let Some(b) = facts.branch {
                lemma_header_says("branch:"@, b@, (180, 140, 200));
                assert(parts[1][1] == header("branch:"@, b@, (180, 140, 200)));
                lemma_all_of_tells(parts, 7, 1, 1, "branch:"@, b@);
            }
        },
        None => {},
    }
    if cwd_differs(conv) {
        let value = path_text(conv.cwd->0@, home);
        lemma_header_says("cwd:"@, value, (200, 200, 200));
        assert(parts[2][0] == header("cwd:"@, value, (200, 200, 200)));
        lemma_all_of_tells(parts, 7, 2, 0, "cwd:"@, value);
    }
    lemma_header_says("session:"@, cut_off(conv.id@, 13, 12), gray);
    assert(parts[3][0] == header("session:"@, cut_off(conv.id@, 13, 12), gray));
    lemma_all_of_tells(parts, 7, 3, 0, "session:"@, cut_off(conv.id@, 13, 12));
    if conv.model is Some {
        let value = model_text(conv.model->0@, facts.tool.command@);
        lemma_header_says("model:"@, value, (180, 140, 200));
        assert(parts[4][0] == header("model:"@, value, (180, 140, 200)));
        lemma_all_of_tells(parts, 7, 4, 0, "model:"@, value);
    }
    if conv.total_tokens > 0 {
        let value = token_text(conv.total_tokens as nat);
        lemma_header_says("tokens:"@, value, gray);
        assert(parts[5][0] == header("tokens:"@, value, gray));
        lemma_all_of_tells(parts, 7, 5, 0, "tokens:"@, value);
    }
    lemma_header_says("messages:"@, messages_text(conv), gray);
    lemma_header_says("updated:"@, updated, gray);
    assert(parts[6][0] == header("messages:"@, messages_text(conv), gray));
    assert(parts[6][1] == header("updated:"@, updated, gray));
    lemma_all_of_tells(parts, 7, 6, 0, "messages:"@, messages_text(conv));
    lemma_all_of_tells(parts, 7, 6, 1, "updated:"@, updated);
}

/// The preview of a conversation tells its project, its status and its provider in the first
/// line; then where it is, its branch, its session, its model, its tokens, how many messages it
/// has and when it was updated, each where it is known; its working directory only where that is
/// another place than its project. The transcript is at the end, whole.
pub proof fn law_preview_tells_of_the_conversation(
    conv: &Conversation,
    facts: PreviewFacts,
    now: Timestamp,
    width: nat,
    body: Option<Seq<LineView>>,
    updated: Seq<char>,
)
    ensures
        ({
            let lines = preview_of(conv, facts, now, width, body, updated);
            let (glyph, word, _) = conversation_status(conv, facts.project_exists, now);
            let elsewhere = conv.cwd is Some && (conv.project_path is None || path_id(
                conv.cwd->0@,
            ) != path_id(conv.project_path->0@));
            &&& conv.project_name is Some ==> lines[0][0].0 == conv.project_name->0@
            &&& lines[0][2].0 == glyph
            &&& lines[0][4].0 == word
            &&& lines[0][6].0 == preview_label(conv.provider, &facts.tool)
            &&& conv.project_path is Some ==> tells(
                lines,
                "path:"@,
                path_text(conv.project_path->0@, opt_text(facts.home)),
            )
            &&& conv.project_path is Some && facts.branch is Some ==> tells(
                lines,
                "branch:"@,
                facts.branch->0@,
            )
            &&& elsewhere ==> tells(
                lines,
                "cwd:"@,
                path_text(conv.cwd->0@, opt_text(facts.home)),
            )
            &&& byte_len(conv.id@) <= 13 ==> tells(lines, "session:"@, conv.id@)
            &&& conv.model is Some ==> tells(
                lines,
                "model:"@,
                model_text(conv.model->0@, facts.tool.command@),
            )
            &&& conv.total_tokens > 0 ==> tells(
                lines,
                "tokens:"@,
                token_text(conv.total_tokens as nat),
            )
            &&& conv.duration_minutes is None ==> tells(
                lines,
                "messages:"@,
                decimal(conv.message_count as nat) + " msgs"@,
            )
            &&& conv.duration_minutes is Some ==> tells(
                lines,
                "messages:"@,
                decimal(conv.message_count as nat) + " msgs \u{b7} "@ + duration_text(
                    conv.duration_minutes->0 as nat,
                ),
            )
            &&& tells(lines, "updated:"@, updated)
            &&& body is Some ==> body->0.is_suffix_of(lines)
        }),
{
    let lines = preview_of(conv, facts, now, width, body, updated);
    let head = preview_head(conv, facts, now, updated);
    let nothing = Seq::<LineView>::empty();
    let tail = summary_lines(conv) + crate::tui::preview::rule_lines(width)
        + crate::tui::preview::body_lines(body);
    lemma_head_tells(conv, facts, now, updated);
    assert(lines =~= nothing + head + tail);
    assert(lines[0] == head[0]);
    assert forall|label: Seq<char>, value: Seq<char>| #[trigger]
        tells(head, label, value) implies tells(lines, label, value) by {
        lemma_tells_in_part(nothing, head, tail, label, value);
    }
    if body is Some {
        let b = body->0;
        assert(lines.subrange(lines.len() - b.len(), lines.len() as int) =~= b);
    }
}

/// The parts of the preview of a group.
spec fn group_parts(
    group: ProjectGroup,
    convs: Seq<Conversation>,
    facts: PreviewFacts,
    width: nat,
    last: Seq<char>,
    listed: nat,
) -> Seq<Seq<LineView>> {
    let gray: (u8, u8, u8) = (140, 140, 140);
    let indices = group.conversation_indices@;
    let names = crate::text::joined(
        crate::tui::preview::provider_names(group.providers@, &facts.tool),
        ", "@,
    );
    seq![
        seq![
            seq![(group.display_name@, crate::tui::preview::title_style())],
            crate::tui::preview::blank(),
        ],
        crate::tui::preview::path_lines(opt_text(group.canonical_path), facts),
        seq![
            header("sessions:"@, decimal(indices.len()), gray),
            header("last:"@, last, gray),
        ],
        crate::tui::preview::only_if(names.len() > 0, header("providers:"@, names, gray)),
        crate::tui::preview::rule_lines(width),
        link_lines(indices, convs, width, listed),
        Seq::empty(),
    ]
}

/// How many conversations the preview of a group lists.
pub open spec fn listed_count(group: ProjectGroup) -> nat {
    if group.conversation_indices@.len() < 5 {
        group.conversation_indices@.len()
    } else {
        5
    }
}

proof fn lemma_group_preview_is_its_parts(
    group: ProjectGroup,
    convs: Seq<Conversation>,
    facts: PreviewFacts,
    width: nat,
    last: Seq<char>,
)
    ensures
        ({
            let lines = group_preview_of(group, convs, facts, width, last);
            let links = link_lines(
                group.conversation_indices@,
                convs,
                width,
                listed_count(group),
            );
            &&& lines == all_of(
                group_parts(group, convs, facts, width, last, listed_count(group)),
                7,
            )
            &&& lines[0].len() == 1 && lines[0][0].0 == group.display_name@
            &&& links.len() <= lines.len()
            &&& lines.skip(lines.len() - links.len()) == links
        }),
{
    let parts = group_parts(group, convs, facts, width, last, listed_count(group));
    lemma_all_of_seven(parts);
    let lines = group_preview_of(group, convs, facts, width, last);
    let links = parts[5];
    let front = parts[0] + parts[1] + parts[2] + parts[3] + parts[4];
    assert(lines == front + links);
    assert(front + links + parts[6] =~= lines);
    assert(lines[0] == parts[0][0]);
    assert(lines.skip(lines.len() - links.len()) =~= links);
}

/// The preview of a group tells its name in the first line, where it is, how many conversations
/// it has, when the last was active, and which providers they have.
pub proof fn law_group_preview_tells_of_the_group(
    group: ProjectGroup,
    convs: Seq<Conversation>,
    facts: PreviewFacts,
    width: nat,
    last: Seq<char>,
)
    ensures
        ({
            let lines = group_preview_of(group, convs, facts, width, last);
            let names = crate::text::joined(
                group.providers@.map_values(|p: ProviderKind| preview_label(p, &facts.tool)),
                ", "@,
            );
            &&& lines[0].len() == 1 && lines[0][0].0 == group.display_name@
            &&& group.canonical_path is Some ==> tells(
                lines,
                "path:"@,
                path_text(group.canonical_path->0@, opt_text(facts.home)),
            )
            &&& tells(lines, "sessions:"@, decimal(group.conversation_indices@.len()))
            &&& tells(lines, "last:"@, last)
            &&& names.len() > 0 ==> tells(lines, "providers:"@, names)
        }),
{
    let gray: (u8, u8, u8) = (140, 140, 140);
    let parts = group_parts(group, convs, facts, width, last, listed_count(group));
    let count = decimal(group.conversation_indices@.len());
    lemma_group_preview_is_its_parts(group, convs, facts, width, last);
    assert(parts.len() == 7);
    match group.canonical_path {
        Some(p) => {
            let value = path_text(p@, opt_text(facts.home));
            lemma_header_says("path:"@, value, (200, 200, 200));
            assert(parts[1][0] == header("path:"@, value, (200, 200, 200)));
            lemma_all_of_tells(parts, 7, 1, 0, "path:"@, value);
        },
        None => {},
    }
    lemma_header_says("sessions:"@, count, gray);
    lemma_header_says("last:"@, last, gray);
    assert(parts[2][0] == header("sessions:"@, count, gray));
    assert(parts[2][1] == header("last:"@, last, gray));
    lemma_all_of_tells(parts, 7, 2, 0, "sessions:"@, count);
    lemma_all_of_tells(parts, 7, 2, 1, "last:"@, last);
    let labels = group.providers@.map_values(|p: ProviderKind| preview_label(p, &facts.tool));
    assert(labels =~= crate::tui::preview::provider_names(group.providers@, &facts.tool));
    let names = crate::text::joined(labels, ", "@);
    if names.len() > 0 {
        lemma_header_says("providers:"@, names, gray);
        assert(parts[3][0] == header("providers:"@, names, gray));
        lemma_all_of_tells(parts, 7, 3, 0, "providers:"@, names);
    }
}

proof fn lemma_number_in_front(n: nat)
    ensures
        (decimal(n) + ". "@).is_suffix_of(crate::text::padded_left(decimal(n), 2) + ". "@),
{
    let number = decimal(n);
    law_padding_adds_spaces(number, 2);
    let padded = crate::text::padded_left(number, 2);
    let mark = number + ". "@;
    let text = padded + ". "@;
    assert(text.subrange(text.len() - mark.len(), text.len() as int) =~= mark) by {
        assert forall|j: int| 0 <= j < number.len() implies text[text.len() - mark.len() + j]
            == number[j] by {
            assert(padded.subrange(padded.len() - number.len(), padded.len() as int)[j]
                == number[j]);
        }
    }
}

/// At its end, the preview of a group lists its newest conversations, five at most, each by its
/// number and its summary, or, without one, by its preview.
pub proof fn law_group_preview_lists_the_newest(
    group: ProjectGroup,
    convs: Seq<Conversation>,
    facts: PreviewFacts,
    width: nat,
    last: Seq<char>,
    k: int,
)
    requires
        0 <= k < listed_count(group),
        forall|i: int|
            0 <= i < group.conversation_indices@.len() ==> (
            #[trigger] group.conversation_indices@[i]) < convs.len(),
    ensures
        ({
            let lines = group_preview_of(group, convs, facts, width, last);
            let conv = convs[group.conversation_indices@[k] as int];
            let line = lines.skip(lines.len() - listed_count(group))[k];
            &&& listed_count(group) <= lines.len()
            &&& line.len() == 2
            &&& (decimal((k + 1) as nat) + ". "@).is_suffix_of(line[0].0)
            &&& conv.summary is Some && conv.summary->0@.len() > 0 && width >= 8 ==> line[1].0
                == clipped(conv.summary->0@, (width - 8) as nat)
            &&& conv.summary is None && width >= 8 ==> line[1].0 == clipped(
                trimmed(conv.preview@),
                (width - 8) as nat,
            )
        }),
{
    lemma_group_preview_is_its_parts(group, convs, facts, width, last);
    lemma_link_lines(group.conversation_indices@, convs, width, listed_count(group));
    lemma_number_in_front((k + 1) as nat);
}

proof fn lemma_link_lines(indices: Seq<usize>, convs: Seq<Conversation>, width: nat, n: nat)
    requires
        n <= indices.len(),
        forall|i: int| 0 <= i < indices.len() ==> (#[trigger] indices[i]) < convs.len(),
    ensures
        link_lines(indices, convs, width, n).len() == n,
        forall|k: int|
            0 <= k < n ==> #[trigger] link_lines(indices, convs, width, n)[k] == link_line(
                k as nat,
                &convs[indices[k] as int],
                width,
            ),
    decreases n,
{
    if n > 0 {
        lemma_link_lines(indices, convs, width, (n - 1) as nat);
        assert(indices[n - 1] < convs.len());
    }
}

/// A path below the home directory is shown from there, and any other as it is.
pub proof fn law_home_is_shown_as_a_tilde(home: Seq<char>, name: Seq<char>, path: Seq<char>)
    requires
        crate::path_laws::is_plain_name(name),
        crate::paths::is_absolute(home),
    ensures
        path_text(crate::paths::spec_join(home, name), Some(home)) == "~/"@ + name,
        path_text(path, None) == path,
        crate::paths::spec_strip_prefix(path, home) is None ==> path_text(path, Some(home))
            == path,
{
    crate::path_laws::law_what_is_left_behind_a_path(home, name, path);
}

/// The branch of a project is what was printed, without the white space around it; nothing, and a
/// detached head, is no branch.
pub proof fn law_branch_is_what_was_printed(before: Seq<char>, name: Seq<char>, after: Seq<char>)
    requires
        crate::text::is_blank(before),
        crate::text::is_blank(after),
        name.len() > 0,
        !crate::text::is_space(name[0]),
        !crate::text::is_space(name.last()),
    ensures
        name != "HEAD"@ ==> branch_told(Some(before + name + after)) == Some(name),
        name == "HEAD"@ ==> branch_told(Some(before + name + after)) is None,
        branch_told(Some(before)) is None,
        branch_told(None) is None,
{
    assert(trimmed(before + name + after) == name) by {
        crate::text::law_trimming_takes_off_white_space(before, name, after);
    }
    assert(trimmed(before).len() == 0) by {
        crate::text::law_blank_iff_trims_to_nothing(before);
    }
}

/// A model of a known family of the vendor goes by the family, whatever its date; a short name
/// of another vendor is shown as it is.
pub proof fn law_models_go_by_their_family(model: Seq<char>, vendor: Seq<char>, date: Seq<char>)
    requires
        crate::text::all_digits(date),
    ensures
        model_text(vendor + "-opus-4-5-"@ + date, vendor) == "opus-4.5"@,
        model_text(vendor + "-opus-4-7-"@ + date, vendor) == "opus-4.7"@,
        model_text(vendor + "-sonnet-4-6-"@ + date, vendor) == "sonnet-4.6"@,
        model_text(vendor + "-sonnet-4-"@ + date, vendor) == "sonnet-4"@,
        model_text(vendor + "-3-5-sonnet-"@ + date, vendor) == "sonnet-3.5"@,
        model_text(vendor + "-3-5-haiku-"@ + date, vendor) == "haiku-3.5"@,
        model_text(vendor + "-3-opus-"@ + date, vendor) == "opus-3"@,
        model_text(vendor + "-3-sonnet-"@ + date, vendor) == "sonnet-3"@,
        model_text(vendor + "-3-haiku-"@ + date, vendor) == "haiku-3"@,
        !vendor.is_prefix_of(model) && byte_len(model) <= 20 ==> model_text(model, vendor)
            == model,
{
    lemma_families_differ();
    lemma_family(vendor, "-opus-4-5-"@, "-opus-4-5-"@, date);
    lemma_family(vendor, "-opus-4-7-"@, "-opus-4-5-"@, date);
    lemma_family(vendor, "-opus-4-7-"@, "-opus-4-7-"@, date);
    lemma_family(vendor, "-sonnet-4-6-"@, "-opus-4-5-"@, date);
    lemma_family(vendor, "-sonnet-4-6-"@, "-opus-4-7-"@, date);
    lemma_family(vendor, "-sonnet-4-6-"@, "-sonnet-4-6-"@, date);
    lemma_family(vendor, "-sonnet-4-"@, "-opus-4-5-"@, date);
    lemma_family(vendor, "-sonnet-4-"@, "-opus-4-7-"@, date);
    lemma_family(vendor, "-sonnet-4-"@, "-sonnet-4-6-"@, date);
    lemma_family(vendor, "-sonnet-4-"@, "-sonnet-4-"@, date);
    lemma_family(vendor, "-3-5-sonnet-"@, "-opus-4-5-"@, date);
    lemma_family(vendor, "-3-5-sonnet-"@, "-opus-4-7-"@, date);
    lemma_family(vendor, "-3-5-sonnet-"@, "-sonnet-4-6-"@, date);
    lemma_family(vendor, "-3-5-sonnet-"@, "-sonnet-4-"@, date);
    lemma_family(vendor, "-3-5-sonnet-"@, "-3-5-sonnet-"@, date);
    lemma_family(vendor, "-3-5-haiku-"@, "-opus-4-5-"@, date);
    lemma_family(vendor, "-3-5-haiku-"@, "-opus-4-7-"@, date);
    lemma_family(vendor, "-3-5-haiku-"@, "-sonnet-4-6-"@, date);
    lemma_family(vendor, "-3-5-haiku-"@, "-sonnet-4-"@, date);
    lemma_family(vendor, "-3-5-haiku-"@, "-3-5-sonnet-"@, date);
    lemma_family(vendor, "-3-5-haiku-"@, "-3-5-haiku-"@, date);
    lemma_family(vendor, "-3-opus-"@, "-opus-4-5-"@, date);
    lemma_family(vendor, "-3-opus-"@, "-opus-4-7-"@, date);
    lemma_family(vendor, "-3-opus-"@, "-sonnet-4-6-"@, date);
    lemma_family(vendor, "-3-opus-"@, "-sonnet-4-"@, date);
    lemma_family(vendor, "-3-opus-"@, "-3-5-sonnet-"@, date);
    lemma_family(vendor, "-3-opus-"@, "-3-5-haiku-"@, date);
    lemma_family(vendor, "-3-opus-"@, "-3-opus-"@, date);
    lemma_family(vendor, "-3-sonnet-"@, "-opus-4-5-"@, date);
    lemma_family(vendor, "-3-sonnet-"@, "-opus-4-7-"@, date);
    lemma_family(vendor, "-3-sonnet-"@, "-sonnet-4-6-"@, date);
    lemma_family(vendor, "-3-sonnet-"@, "-sonnet-4-"@, date);
    lemma_family(vendor, "-3-sonnet-"@, "-3-5-sonnet-"@, date);
    lemma_family(vendor, "-3-sonnet-"@, "-3-5-haiku-"@, date);
    lemma_family(vendor, "-3-sonnet-"@, "-3-opus-"@, date);
    lemma_family(vendor, "-3-sonnet-"@, "-3-sonnet-"@, date);
    lemma_family(vendor, "-3-haiku-"@, "-opus-4-5-"@, date);
    lemma_family(vendor, "-3-haiku-"@, "-opus-4-7-"@, date);
    lemma_family(vendor, "-3-haiku-"@, "-sonnet-4-6-"@, date);
    lemma_family(vendor, "-3-haiku-"@, "-sonnet-4-"@, date);
    lemma_family(vendor, "-3-haiku-"@, "-3-5-sonnet-"@, date);
    lemma_family(vendor, "-3-haiku-"@, "-3-5-haiku-"@, date);
    lemma_family(vendor, "-3-haiku-"@, "-3-opus-"@, date);
    lemma_family(vendor, "-3-haiku-"@, "-3-sonnet-"@, date);
    lemma_family(vendor, "-3-haiku-"@, "-3-haiku-"@, date);
    if !vendor.is_prefix_of(model) {
        lemma_no_family(model, vendor, "-opus-4-5-"@);
        lemma_no_family(model, vendor, "-opus-4-7-"@);
        lemma_no_family(model, vendor, "-sonnet-4-6-"@);
        lemma_no_family(model, vendor, "-sonnet-4-"@);
        lemma_no_family(model, vendor, "-3-5-sonnet-"@);
        lemma_no_family(model, vendor, "-3-5-haiku-"@);
        lemma_no_family(model, vendor, "-3-opus-"@);
        lemma_no_family(model, vendor, "-3-sonnet-"@);
        lemma_no_family(model, vendor, "-3-haiku-"@);
    }
}

proof fn lemma_families_differ()
    ensures
        "-opus-4-5-"@.len() == 10 && "-opus-4-5-"@.last() == '-' && "-opus-4-5-"@[1] == 'o',
        "-opus-4-7-"@.len() == 10 && "-opus-4-7-"@.last() == '-' && "-opus-4-7-"@[1] == 'o',
        "-sonnet-4-6-"@.len() == 12 && "-sonnet-4-6-"@.last() == '-' && "-sonnet-4-6-"@[1] == 's',
        "-sonnet-4-"@.len() == 10 && "-sonnet-4-"@.last() == '-' && "-sonnet-4-"@[1] == 's',
        "-3-5-sonnet-"@.len() == 12 && "-3-5-sonnet-"@.last() == '-' && "-3-5-sonnet-"@[1] == '3',
        "-3-5-haiku-"@.len() == 11 && "-3-5-haiku-"@.last() == '-' && "-3-5-haiku-"@[1] == '3',
        "-3-opus-"@.len() == 8 && "-3-opus-"@.last() == '-' && "-3-opus-"@[1] == '3',
        "-3-sonnet-"@.len() == 10 && "-3-sonnet-"@.last() == '-' && "-3-sonnet-"@[1] == '3',
        "-3-haiku-"@.len() == 9 && "-3-haiku-"@.last() == '-' && "-3-haiku-"@[1] == '3',
        "-opus-4-5-"@[8] != "-opus-4-7-"@[8],
{
    reveal_strlit("-opus-4-5-");
    reveal_strlit("-opus-4-7-");
    reveal_strlit("-sonnet-4-6-");
    reveal_strlit("-sonnet-4-");
    reveal_strlit("-3-5-sonnet-");
    reveal_strlit("-3-5-haiku-");
    reveal_strlit("-3-opus-");
    reveal_strlit("-3-sonnet-");
    reveal_strlit("-3-haiku-");
}

/// A name of one family is a name of another only where the families are the same.
proof fn lemma_family(vendor: Seq<char>, family: Seq<char>, other: Seq<char>, date: Seq<char>)
    requires
        family.len() > 0,
        family.last() == '-',
        other.len() > 0,
        other.last() == '-',
        crate::text::all_digits(date),
    ensures
        crate::tui::preview::is_model(vendor + family + date, vendor + other) <==> family == other,
{
    let m = vendor + family + date;
    let prefix = vendor + other;
    if family == other {
        assert(m.subrange(0, prefix.len() as int) =~= prefix);
        assert(m.skip(prefix.len() as int) =~= date);
    } else if crate::tui::preview::is_model(m, prefix) {
        let v = vendor.len() as int;
        let rest = m.skip(prefix.len() as int);
        assert forall|i: int| 0 <= i < other.len() implies other[i] == m[v + i] by {
            assert(prefix[v + i] == m.subrange(0, prefix.len() as int)[v + i]);
        }
        if other.len() > family.len() {
            let i = other.len() - 1 - family.len();
            assert(m[v + other.len() - 1] == date[i]);
            assert(crate::text::is_digit(date[i]));
        } else if other.len() < family.len() {
            let i = family.len() - 1 - other.len();
            assert(rest[i] == family.last());
            assert(crate::text::is_digit(rest[i]));
        } else {
            assert(other =~= family);
        }
    }
}

proof fn lemma_no_family(model: Seq<char>, vendor: Seq<char>, family: Seq<char>)
    requires
        !vendor.is_prefix_of(model),
    ensures
        !crate::tui::preview::is_model(model, vendor + family),
{
    let prefix = vendor + family;
    if prefix.is_prefix_of(model) {
        assert(vendor =~= model.subrange(0, vendor.len() as int)) by {
            assert forall|i: int| 0 <= i < vendor.len() implies vendor[i] == model[i] by {
                assert(prefix[i] == model.subrange(0, prefix.len() as int)[i]);
            }
        }
    }
}

/// A conversation with a summary shows it in a line of its own, above the transcript.
pub proof fn law_summary_is_shown(
    conv: &Conversation,
    facts: PreviewFacts,
    now: Timestamp,
    width: nat,
    body: Option<Seq<LineView>>,
    updated: Seq<char>,
)
    requires
        conv.summary is Some,
        conv.summary->0@.len() > 0,
    ensures
        exists|i: int|
            0 <= i < preview_of(conv, facts, now, width, body, updated).len() && (
            #[trigger] preview_of(conv, facts, now, width, body, updated)[i]).len() == 1
                && preview_of(conv, facts, now, width, body, updated)[i][0].0
                == conv.summary->0@,
        body is None ==> preview_of(conv, facts, now, width, body, updated).last()[0].0
            == "(failed to read conversation file)"@,
{
    let lines = preview_of(conv, facts, now, width, body, updated);
    let head = preview_head(conv, facts, now, updated);
    let summary = summary_lines(conv);
    assert(lines[head.len() as int + 1] == summary[1]);
    assert(summary[1].len() == 1);
}

/// The length of a text is that of its UTF-8 encoding.
pub proof fn law_lengths_are_those_of_the_encoding(s: Seq<char>)
    ensures
        byte_len(s) == vstd::utf8::encode_utf8(s).len(),
    decreases s.len(),
{
    if s.len() > 0 {
        let rest = s.drop_first();
        law_lengths_are_those_of_the_encoding(rest);
        lemma_bytes_behind(s[0], rest);
        assert(s =~= seq![s[0]] + rest);
        lemma_width_is_that_of_the_encoding(s[0]);
    }
}

proof fn lemma_width_is_that_of_the_encoding(c: char)
    ensures
        vstd::utf8::encode_scalar(c as u32).len() == crate::text::utf8_width(c),
{
}

/// A text can be cut behind each of its characters.
pub proof fn law_texts_can_be_cut_between_characters(s: Seq<char>, k: nat)
    requires
        k <= s.len(),
    ensures
        byte_prefix(s, byte_len(s.take(k as int))) == Some(s.take(k as int)),
    decreases k,
{
    if k > 0 {
        let rest = s.skip(1);
        law_texts_can_be_cut_between_characters(rest, (k - 1) as nat);
        lemma_bytes_behind(s[0], rest.take(k - 1));
        assert(s.take(k as int) =~= seq![s[0]] + rest.take(k - 1));
        let n = byte_len(rest.take(k - 1));
        let held = crate::text::chars_in_bytes(rest, n)->0;
        lemma_bytes_of_prefix(rest, n);
        assert(rest.take(held as int).len() == held);
        assert(rest.take(k - 1).len() == k - 1);
        assert(rest.take(held as int) == rest.take(k - 1));
        assert(held == k - 1);
    } else {
        assert(s.take(0) =~= Seq::<char>::empty());
        assert(byte_len(Seq::<char>::empty()) == 0);
        assert(crate::text::chars_in_bytes(s, 0) == Some(0nat));
    }
}

/// A rule as wide as the pane, but no narrower than twenty characters, stands between what the
/// preview tells of a conversation and its transcript, which follows as it is.
pub proof fn law_rule_stands_above_the_transcript(
    conv: &Conversation,
    facts: PreviewFacts,
    now: Timestamp,
    width: nat,
    body: Seq<LineView>,
    updated: Seq<char>,
)
    ensures
        ({
            let lines = preview_of(conv, facts, now, width, Some(body), updated);
            let at = lines.len() - body.len();
            &&& at >= 3
            &&& lines.skip(at) == body
            &&& lines[at - 2].len() == 1
            &&& lines[at - 2][0].0.len() == (if width < 20 {
                20
            } else {
                width
            })
            &&& forall|i: int|
                0 <= i < lines[at - 2][0].0.len() ==> #[trigger] lines[at - 2][0].0[i]
                    == '\u{2500}'
        }),
{
    let lines = preview_of(conv, facts, now, width, Some(body), updated);
    let at = lines.len() - body.len();
    assert(lines.skip(at) =~= body);
    assert(lines[at - 2] == crate::tui::preview::rule_lines(width)[1]);
}

/// The first line of a preview reads as the project, the status and the tool.
pub proof fn law_title_names_project_status_and_tool(
    conv: &Conversation,
    facts: PreviewFacts,
    now: Timestamp,
)
    ensures
        ({
            let line = title_line(conv, facts, now);
            let (glyph, label, _) = conversation_status(conv, facts.project_exists, now);
            &&& line.len() == 7
            &&& conv.project_name is Some ==> line[0].0 == conv.project_name->0@
            &&& conv.project_name is None ==> line[0].0 == "(unknown)"@
            &&& line[1].0 == "  "@ && line[3].0 == " "@ && line[5].0 == "  "@
            &&& line[2].0 == glyph && line[4].0 == label
            &&& line[6].0 == match conv.provider {
                ProviderKind::Claude => facts.tool.label@,
                ProviderKind::Cursor => "Cursor IDE"@,
                ProviderKind::CursorAgent => "Cursor CLI"@,
            }
        }),
{
}

} // verus!
