//! What holds of the conversations that are read from transcripts.

use crate::error::AppErrorView;
use crate::history::{ContentBlockView, LogEntryView, ParseErrorView, ProviderKind};
use crate::paths::opt_text;
use crate::providers::cursor_agent::{
    content_of, contents_among, contents_of, conversation_of,
    entries_in, gathered, is_activity_time, line_of, line_with, minutes_taken, opt_reading,
    preview_text, shown_parts, summaries_among, text_of_blocks, texts_among,
    GatheredView, TranscriptBlock, TranscriptLine, TranscriptRecord,
};
use crate::text::{
    decimal, is_blank, joined, law_respaced_is_its_words_joined, law_respacing_keeps_words,
    law_words_of_a_part, law_words_of_joined_texts, law_words_of_two_texts, lowercase,
    words, words_among,
};
use crate::time::Timestamp;
use vstd::prelude::*;

verus! {

/// Whether a block holds a text.
pub open spec fn is_text_block(block: TranscriptBlock) -> bool {
    block.block_type@ == "text"@ && block.text is Some
}

/// The texts of the first `n` blocks that hold one.
pub open spec fn block_texts(blocks: Seq<TranscriptBlock>, n: nat) -> Seq<Seq<char>>
    decreases n,
{
    if n == 0 {
        Seq::empty()
    } else if is_text_block(blocks[n - 1]) {
        block_texts(blocks, (n - 1) as nat).push(blocks[n - 1].text->0@)
    } else {
        block_texts(blocks, (n - 1) as nat)
    }
}

/// What the first `n` blocks without text are called: tools by their name, and thinking.
pub open spec fn block_names(blocks: Seq<TranscriptBlock>, n: nat) -> Seq<Seq<char>>
    decreases n,
{
    if n == 0 {
        Seq::empty()
    } else {
        let before = block_names(blocks, (n - 1) as nat);
        let block = blocks[n - 1];
        if block.block_type@ == "tool_use"@ && block.name is Some {
            before.push("Tool: "@ + block.name->0@)
        } else if block.block_type@ == "thinking"@ {
            before.push("Thinking"@)
        } else {
            before
        }
    }
}

/// The words of the text blocks of a line.
pub open spec fn spoken_words(record: TranscriptRecord) -> Seq<Seq<char>> {
    let parts = block_texts(record.content@, record.content@.len());
    words_among(parts, parts.len())
}

proof fn lemma_texts_among_alike(a: Seq<ContentBlockView>, b: Seq<ContentBlockView>, n: nat)
    requires
        n <= a.len(),
        n <= b.len(),
        forall|i: int| 0 <= i < n ==> a[i] == b[i],
    ensures
        texts_among(a, n) == texts_among(b, n),
    decreases n,
{
    if n > 0 {
        lemma_texts_among_alike(a, b, (n - 1) as nat);
    }
}

proof fn lemma_texts_of_contents(blocks: Seq<TranscriptBlock>, line_idx: nat, n: nat)
    requires
        n <= blocks.len(),
    ensures
        ({
            let contents = contents_among(blocks, line_idx, n);
            texts_among(contents, contents.len()) == block_texts(blocks, n)
        }),
    decreases n,
{
    if n > 0 {
        lemma_texts_of_contents(blocks, line_idx, (n - 1) as nat);
        let before = contents_among(blocks, line_idx, (n - 1) as nat);
        let contents = contents_among(blocks, line_idx, n);
        match content_of(&blocks[n - 1], line_idx, (n - 1) as nat) {
            Some(b) => {
                lemma_texts_among_alike(before, contents, before.len());
                assert(contents[before.len() as int] == b);
            },
            None => {},
        }
    }
}

proof fn lemma_line_text(record: &TranscriptRecord, line_idx: nat)
    ensures
        text_of_blocks(contents_of(record, line_idx)) == joined(
            block_texts(record.content@, record.content@.len()),
            seq![' '],
        ),
        words(text_of_blocks(contents_of(record, line_idx))) == spoken_words(*record),
{
    lemma_texts_of_contents(record.content@, line_idx, record.content@.len());
    reveal_strlit(" ");
    assert(" "@ =~= seq![' ']);
    law_words_of_joined_texts(block_texts(record.content@, record.content@.len()));
}

proof fn lemma_summaries(blocks: Seq<TranscriptBlock>, n: nat)
    requires
        n <= blocks.len(),
    ensures
        ({
            let names = block_names(blocks, n);
            summaries_among(blocks, n) == names.take(
                if names.len() < 3 {
                    names.len() as int
                } else {
                    3
                },
            )
        }),
    decreases n,
{
    let names = block_names(blocks, n);
    if n == 0 {
        assert(summaries_among(blocks, n) =~= names.take(0));
    } else {
        lemma_summaries(blocks, (n - 1) as nat);
        reveal_strlit("tool_use");
        reveal_strlit("thinking");
        assert("tool_use"@[1] == 'o');
        assert("thinking"@[1] == 'h');
        assert("tool_use"@ != "thinking"@);
        let before = block_names(blocks, (n - 1) as nat);
        assert(summaries_among(blocks, n) =~= names.take(
            if names.len() < 3 {
                names.len() as int
            } else {
                3
            },
        ));
    }
}

/// What is searched for and shown of a line. Where its text blocks have any word, it is exactly
/// their words in order; a line without a word is shown by the names of its first three tools and
/// thoughts, and one that has none of these by nothing.
pub proof fn law_line_is_found_by_its_words(
    record: &TranscriptRecord,
    line_idx: nat,
    workspace: Option<Seq<char>>,
    role_lower: Seq<char>,
    timestamp: Option<Timestamp>,
)
    ensures
        line_with(record, line_idx, workspace, role_lower, timestamp) matches Some(line) ==> {
            let names = block_names(record.content@, record.content@.len());
            let first = if names.len() < 3 {
                names.len() as int
            } else {
                3
            };
            &&& line.text_for_search == line.text_for_preview
            &&& spoken_words(*record).len() > 0 ==> line.text_for_search is Some && words(
                line.text_for_search->0,
            ) == spoken_words(*record) && line.text_for_search->0 == joined(
                spoken_words(*record),
                seq![' '],
            )
            &&& spoken_words(*record).len() == 0 && names.len() > 0 ==> line.text_for_search
                == Some(joined(names.take(first), " ... "@))
            &&& spoken_words(*record).len() == 0 && names.len() == 0 ==> line.text_for_search
                is None
        },
{
    lemma_line_text(record, line_idx);
    let text = text_of_blocks(contents_of(record, line_idx));
    law_respaced_is_its_words_joined(text);
    law_respacing_keeps_words(text);
    lemma_summaries(record.content@, record.content@.len());
    lemma_names_are_not_empty(record.content@, record.content@.len());
    let names = block_names(record.content@, record.content@.len());
    let first = names.take(
        if names.len() < 3 {
            names.len() as int
        } else {
            3
        },
    );
    if names.len() > 0 {
        assert(first[0].len() > 0);
        lemma_joined_is_not_empty(first, " ... "@);
    } else {
        assert(joined(first, " ... "@).len() == 0);
    }
}

proof fn lemma_names_are_not_empty(blocks: Seq<TranscriptBlock>, n: nat)
    ensures
        forall|i: int| 0 <= i < block_names(blocks, n).len() ==> (#[trigger] block_names(
            blocks,
            n,
        )[i]).len() > 0,
    decreases n,
{
    if n > 0 {
        lemma_names_are_not_empty(blocks, (n - 1) as nat);
        reveal_strlit("Tool: ");
        reveal_strlit("Thinking");
        let before = block_names(blocks, (n - 1) as nat);
        let names = block_names(blocks, n);
        assert forall|i: int| 0 <= i < names.len() implies (#[trigger] names[i]).len() > 0 by {
            if i < before.len() {
                assert(names[i] == before[i]);
            }
        }
    }
}

proof fn lemma_joined_is_not_empty(parts: Seq<Seq<char>>, sep: Seq<char>)
    requires
        parts.len() > 0,
        parts[0].len() > 0,
    ensures
        joined(parts, sep).len() > 0,
    decreases parts.len(),
{
    if parts.len() > 1 {
        lemma_joined_is_not_empty(parts.drop_last(), sep);
    }
}

proof fn lemma_contents_grow(blocks: Seq<TranscriptBlock>, line_idx: nat, b: nat, n: nat)
    requires
        b < n <= blocks.len(),
        content_of(&blocks[b as int], line_idx, b) is Some,
    ensures
        contents_among(blocks, line_idx, n).contains(
            content_of(&blocks[b as int], line_idx, b)->0,
        ),
        contents_among(blocks, line_idx, n).len() > 0,
    decreases n,
{
    let before = contents_among(blocks, line_idx, (n - 1) as nat);
    let all = contents_among(blocks, line_idx, n);
    let c = content_of(&blocks[b as int], line_idx, b)->0;
    if b == n - 1 {
        assert(all[before.len() as int] == c);
    } else {
        lemma_contents_grow(blocks, line_idx, b, (n - 1) as nat);
        let k = choose|k: int| 0 <= k < before.len() && before[k] == c;
        assert(all[k] == c);
    }
}

/// A line of the user or the assistant that holds a text is read, whatever else it holds, and
/// one of another role is not.
pub proof fn law_lines_with_text_are_read(
    record: &TranscriptRecord,
    line_idx: nat,
    workspace: Option<Seq<char>>,
    role_lower: Seq<char>,
    timestamp: Option<Timestamp>,
    b: int,
)
    requires
        0 <= b < record.content@.len(),
        is_text_block(record.content@[b]),
    ensures
        line_with(record, line_idx, workspace, role_lower, timestamp) is Some <==> role_lower
            == "user"@ || role_lower == "assistant"@,
{
    lemma_contents_grow(record.content@, line_idx, b as nat, record.content@.len());
}

/// What the message of a line says: whose it is, when and where it was written, and every text,
/// tool and tool result in it.
pub proof fn law_message_says_what_the_line_holds(
    record: &TranscriptRecord,
    line_idx: nat,
    workspace: Option<Seq<char>>,
    role_lower: Seq<char>,
    timestamp: Option<Timestamp>,
    b: int,
)
    requires
        0 <= b < record.content@.len(),
        line_with(record, line_idx, workspace, role_lower, timestamp) is Some,
    ensures
        ({
            let line = line_with(record, line_idx, workspace, role_lower, timestamp)->0;
            let block = record.content@[b];
            let content = match line.entry {
                LogEntryView::User { content, .. } => content,
                LogEntryView::Assistant { content, .. } => content,
            };
            let told = match line.entry {
                LogEntryView::User { timestamp, .. } => timestamp,
                LogEntryView::Assistant { timestamp, .. } => timestamp,
            };
            &&& line.counts_as_message
            &&& line.timestamp == timestamp
            &&& role_lower == "user"@ <==> line.entry is User
            &&& role_lower == "assistant"@ <==> line.entry is Assistant
            &&& line.entry matches LogEntryView::User { cwd, .. } ==> cwd == workspace
            &&& record.timestamp matches Some(t) ==> told == t@
            &&& is_text_block(block) ==> content.contains(
                ContentBlockView::Text { text: block.text->0@ },
            )
            &&& block.block_type@ == "tool_use"@ && block.id is Some && block.name is Some
                && block.input is Some ==> content.contains(
                ContentBlockView::ToolUse {
                    id: block.id->0@,
                    name: block.name->0@,
                    input: block.input->0@,
                },
            )
            &&& block.block_type@ == "tool_result"@ && block.tool_use_id is Some
                ==> content.contains(
                ContentBlockView::ToolResult {
                    tool_use_id: block.tool_use_id->0@,
                    content: opt_text(block.content),
                },
            )
            &&& block.block_type@ == "thinking"@ && block.thinking is Some && block.signature
                is Some ==> content.contains(
                ContentBlockView::Thinking {
                    thinking: block.thinking->0@,
                    signature: block.signature->0@,
                },
            )
            &&& block.block_type@ == "image"@ && block.source is Some ==> content.contains(
                ContentBlockView::Image { source: block.source->0@ },
            )
        }),
{
    lemma_kinds_differ();
    reveal_strlit("user");
    reveal_strlit("assistant");
    assert("user"@.len() == 4);
    assert("assistant"@.len() == 9);
    if content_of(&record.content@[b], line_idx, b as nat) is Some {
        lemma_contents_grow(record.content@, line_idx, b as nat, record.content@.len());
    }
}

proof fn lemma_kinds_differ()
    ensures
        "text"@.len() == 4,
        "tool_use"@.len() == 8,
        "tool_result"@.len() == 11,
        "thinking"@.len() == 8,
        "image"@.len() == 5,
        "tool_use"@ != "thinking"@,
{
    reveal_strlit("text");
    reveal_strlit("tool_use");
    reveal_strlit("tool_result");
    reveal_strlit("thinking");
    reveal_strlit("image");
    assert("tool_use"@[1] == 'o');
    assert("thinking"@[1] == 'h');
}

// Whole transcripts

/// What a line of a transcript adds to what is searched, where it adds anything: the words of
/// its text, or, where it has none, the names of its first three tools and thoughts.
pub open spec fn line_adds(line: TranscriptLine) -> Seq<Seq<char>> {
    match line {
        TranscriptLine::Text { content, record: Ok(record) } => {
            let names = block_names(record.content@, record.content@.len());
            let role = lowercase(record.role@);
            if is_blank(content@) || (role != "user"@ && role != "assistant"@) {
                Seq::empty()
            } else if spoken_words(record).len() > 0 {
                spoken_words(record)
            } else if names.len() == 0 {
                Seq::empty()
            } else if names.len() < 3 {
                words(joined(names, " ... "@))
            } else {
                words(joined(names.take(3), " ... "@))
            }
        },
        _ => Seq::empty(),
    }
}

/// What the first `n` lines of a transcript add to what is searched.
pub open spec fn lines_add(lines: Seq<TranscriptLine>, n: nat) -> Seq<Seq<char>>
    decreases n,
{
    if n == 0 {
        Seq::empty()
    } else {
        lines_add(lines, (n - 1) as nat) + line_adds(lines[n - 1])
    }
}

proof fn lemma_block_texts_are_read(
    record: &TranscriptRecord,
    line_idx: nat,
    workspace: Option<Seq<char>>,
    n: nat,
)
    requires
        n <= record.content@.len(),
    ensures
        contents_among(record.content@, line_idx, n).len() == 0 ==> block_texts(
            record.content@,
            n,
        ).len() == 0 && block_names(record.content@, n).len() == 0,
    decreases n,
{
    if n > 0 {
        lemma_block_texts_are_read(record, line_idx, workspace, (n - 1) as nat);
        lemma_kinds_differ();
    }
}

proof fn lemma_line_adds(
    record: TranscriptRecord,
    content: String,
    line_idx: nat,
    workspace: Option<Seq<char>>,
)
    requires
        !is_blank(content@),
    ensures
        ({
            let adds = line_adds(TranscriptLine::Text { content, record: Ok(record) });
            match line_of(&record, line_idx, workspace) {
                Some(line) => match line.text_for_search {
                    Some(t) => adds == words(t),
                    None => adds.len() == 0,
                },
                None => adds.len() == 0,
            }
        }),
{
    let role = lowercase(record.role@);
    let timestamp = opt_reading(opt_text(record.timestamp));
    law_line_is_found_by_its_words(&record, line_idx, workspace, role, timestamp);
    lemma_block_texts_are_read(&record, line_idx, workspace, record.content@.len());
    let names = block_names(record.content@, record.content@.len());
    assert(names.take(names.len() as int) =~= names);
    if line_of(&record, line_idx, workspace) is None && (role == "user"@ || role
        == "assistant"@) {
        assert(contents_of(&record, line_idx).len() == 0);
    }
}

proof fn lemma_search_words(lines: Seq<TranscriptLine>, workspace: Option<Seq<char>>, n: nat)
    requires
        n <= lines.len(),
    ensures
        ({
            let g = gathered(lines, workspace, n);
            &&& words_among(g.search, g.search.len()) == lines_add(lines, n)
            &&& g.search == g.preview
        }),
    decreases n,
{
    if n > 0 {
        lemma_search_words(lines, workspace, (n - 1) as nat);
        let before = gathered(lines, workspace, (n - 1) as nat);
        let g = gathered(lines, workspace, n);
        match lines[n - 1] {
            TranscriptLine::Unreadable(_) => {},
            TranscriptLine::Text { content, record } => {
                if !is_blank(content@) {
                    match record {
                        Ok(record) => {
                            lemma_line_adds(record, content, n, workspace);
                            let role = lowercase(record.role@);
                            let timestamp = opt_reading(opt_text(record.timestamp));
                            law_line_is_found_by_its_words(
                                &record,
                                n,
                                workspace,
                                role,
                                timestamp,
                            );
                        },
                        Err(_) => {},
                    }
                }
            },
        }
        if g.search.len() > before.search.len() {
            crate::text::lemma_words_among_alike(before.search, g.search, before.search.len());
        }
        assert(words_among(g.search, g.search.len()) =~= lines_add(lines, n));
    }
}

/// The text of a conversation is exactly what its lines add to it, in order and with single
/// spaces between the words.
pub proof fn law_full_text_is_what_the_lines_add(
    path: Seq<char>,
    show_last: bool,
    workspace: Option<Seq<char>>,
    workspace_name: Seq<char>,
    project_dir_name: Seq<char>,
    lines: Seq<TranscriptLine>,
    timestamp: Timestamp,
)
    ensures
        conversation_of(
            path,
            show_last,
            workspace,
            workspace_name,
            project_dir_name,
            gathered(lines, workspace, lines.len()),
            timestamp,
        ) matches Some(conv) ==> words(conv.full_text) == lines_add(lines, lines.len())
            && conv.full_text == joined(lines_add(lines, lines.len()), seq![' ']),
{
    let g = gathered(lines, workspace, lines.len());
    lemma_search_words(lines, workspace, lines.len());
    reveal_strlit(" ");
    assert(" "@ =~= seq![' ']);
    law_words_of_joined_texts(g.search);
    law_respacing_keeps_words(joined(g.search, " "@));
}

proof fn lemma_lines_add_part(lines: Seq<TranscriptLine>, k: int, n: nat)
    requires
        0 <= k < n <= lines.len(),
    ensures
        ({
            let from = lines_add(lines, k as nat).len() as int;
            let own = line_adds(lines[k]);
            let all = lines_add(lines, n);
            from + own.len() <= all.len() && all.subrange(from, from + own.len()) == own
        }),
    decreases n,
{
    let from = lines_add(lines, k as nat).len() as int;
    let own = line_adds(lines[k]);
    let all = lines_add(lines, n);
    if k == n - 1 {
        assert(all.subrange(from, from + own.len()) =~= own);
    } else {
        lemma_lines_add_part(lines, k, (n - 1) as nat);
        let before = lines_add(lines, (n - 1) as nat);
        assert(all.subrange(from, from + own.len()) =~= before.subrange(from, from + own.len()));
    }
}

proof fn lemma_block_text_position(blocks: Seq<TranscriptBlock>, b: int, n: nat)
    requires
        0 <= b < n <= blocks.len(),
        is_text_block(blocks[b]),
    ensures
        block_texts(blocks, b as nat).len() < block_texts(blocks, n).len(),
        block_texts(blocks, n)[block_texts(blocks, b as nat).len() as int] == blocks[b].text->0@,
    decreases n,
{
    if b < n - 1 {
        lemma_block_text_position(blocks, b, (n - 1) as nat);
    }
}

/// Every word of every text block of a readable line of the user or the assistant stands in the
/// text of the conversation, in order and unbroken, wherever the block stands in its line and
/// whatever stands beside it; and such a transcript gives a conversation.
pub proof fn law_every_text_block_is_searched(
    path: Seq<char>,
    show_last: bool,
    workspace: Option<Seq<char>>,
    workspace_name: Seq<char>,
    project_dir_name: Seq<char>,
    lines: Seq<TranscriptLine>,
    timestamp: Timestamp,
    k: int,
    content: String,
    record: TranscriptRecord,
    b: int,
)
    requires
        0 <= k < lines.len(),
        lines[k] == (TranscriptLine::Text { content, record: Ok(record) }),
        !is_blank(content@),
        lowercase(record.role@) == "user"@ || lowercase(record.role@) == "assistant"@,
        0 <= b < record.content@.len(),
        is_text_block(record.content@[b]),
        words(record.content@[b].text->0@).len() > 0,
    ensures
        ({
            let own = words(record.content@[b].text->0@);
            let conv = conversation_of(
                path,
                show_last,
                workspace,
                workspace_name,
                project_dir_name,
                gathered(lines, workspace, lines.len()),
                timestamp,
            );
            &&& conv is Some
            &&& exists|at: int|
                0 <= at && at + own.len() <= words(conv->0.full_text).len() && #[trigger] words(
                    conv->0.full_text,
                ).subrange(at, at + own.len()) == own
        }),
{
    law_full_text_is_what_the_lines_add(
        path,
        show_last,
        workspace,
        workspace_name,
        project_dir_name,
        lines,
        timestamp,
    );
    let own = words(record.content@[b].text->0@);
    let parts = block_texts(record.content@, record.content@.len());
    let p = block_texts(record.content@, b as nat).len() as int;
    lemma_block_text_position(record.content@, b, record.content@.len());
    law_words_of_a_part(parts, p, parts.len());
    let inner = words_among(parts, p as nat).len() as int;
    let line = spoken_words(record);
    assert(line.subrange(inner, inner + own.len()) == own);
    assert(line.len() > 0);
    assert(line_adds(lines[k]) == line);
    lemma_lines_add_part(lines, k, lines.len());
    let outer = lines_add(lines, k as nat).len() as int;
    let all = lines_add(lines, lines.len());
    assert(all.subrange(outer + inner, outer + inner + own.len()) =~= own) by {
        assert forall|i: int| 0 <= i < own.len() implies all[outer + inner + i] == own[i] by {
            assert(all.subrange(outer, outer + line.len())[inner + i] == line[inner + i]);
            assert(line.subrange(inner, inner + own.len())[i] == line[inner + i]);
        }
    }
    lemma_search_words(lines, workspace, lines.len());
    let g = gathered(lines, workspace, lines.len());
    if g.preview.len() == 0 {
        assert(words_among(g.search, 0).len() == 0);
    }
}


proof fn lemma_words_around_dots(a: Seq<char>, b: Seq<char>)
    ensures
        words(a + " ... "@ + b) == words(a) + seq!["..."@] + words(b),
{
    reveal_strlit(" ... ");
    reveal_strlit("...");
    let dots = seq!['.', '.', '.'];
    assert("..."@ =~= dots);
    assert(a + " ... "@ + b =~= (a + seq![' '] + dots) + seq![' '] + b);
    law_words_of_two_texts(a + seq![' '] + dots, ' ', b);
    law_words_of_two_texts(a, ' ', dots);
    crate::text::lemma_word(dots);
    assert((words(a) + seq![dots]) + words(b) =~= words(a) + seq!["..."@] + words(b));
}

/// A preview shows the first three of the texts that are shown of the lines, or, where the last
/// are asked for, the last three beginning with the last, with dots between them.
pub proof fn law_preview_shows_three_texts(parts: Seq<Seq<char>>, show_last: bool)
    requires
        parts.len() > 0,
    ensures
        ({
            let n = parts.len() as int;
            let first = if show_last { parts[n - 1] } else { parts[0] };
            let second = if show_last { parts[n - 2] } else { parts[1] };
            let third = if show_last { parts[n - 3] } else { parts[2] };
            let dots = seq!["..."@];
            &&& n == 1 ==> words(preview_text(parts, show_last)) == words(first)
            &&& n == 2 ==> words(preview_text(parts, show_last)) == words(first) + dots + words(
                second,
            )
            &&& n >= 3 ==> words(preview_text(parts, show_last)) == words(first) + dots + words(
                second,
            ) + dots + words(third)
        }),
{
    let n = parts.len() as int;
    let shown = shown_parts(parts, show_last);
    let text = joined(shown, " ... "@);
    law_respacing_keeps_words(text);
    if n == 1 {
        assert(text == shown[0]);
    } else if n == 2 {
        assert(shown.drop_last() =~= seq![shown[0]]);
        assert(text == joined(seq![shown[0]], " ... "@) + " ... "@ + shown[1]);
        lemma_words_around_dots(shown[0], shown[1]);
    } else {
        let two = shown.drop_last();
        assert(two.drop_last() =~= seq![shown[0]]);
        assert(joined(two, " ... "@) == joined(seq![shown[0]], " ... "@) + " ... "@ + shown[1]);
        lemma_words_around_dots(shown[0], shown[1]);
        lemma_words_around_dots(joined(two, " ... "@), shown[2]);
    }
}

/// What a conversation that is read from a transcript says of itself: the file it is in, its
/// provider, its workspace and that workspace's name, how many messages were counted and which
/// lines could not be read; and what is shown of its lines is what is searched.
pub proof fn law_conversation_is_that_of_its_file(
    path: Seq<char>,
    show_last: bool,
    workspace: Option<Seq<char>>,
    workspace_name: Seq<char>,
    project_dir_name: Seq<char>,
    lines: Seq<TranscriptLine>,
    timestamp: Timestamp,
)
    ensures
        ({
            let g = gathered(lines, workspace, lines.len());
            let conv = conversation_of(
                path,
                show_last,
                workspace,
                workspace_name,
                project_dir_name,
                g,
                timestamp,
            );
            &&& conv is Some <==> lines_add(lines, lines.len()).len() > 0
            &&& conv is Some ==> {
                let c = conv->0;
                &&& c.path == path
                &&& c.provider == ProviderKind::CursorAgent
                &&& c.timestamp == timestamp
                &&& c.project_path == workspace
                &&& c.cwd == workspace
                &&& workspace is Some ==> c.project_name == Some(workspace_name)
                &&& workspace is None ==> (c.project_name matches Some(name) ==> name.len() > 0
                    && !name.contains('-') && name.is_suffix_of(project_dir_name))
                &&& workspace is None && project_dir_name.len() > 0 && project_dir_name.last()
                    != '-' ==> c.project_name is Some
                &&& c.message_count == g.messages
                &&& c.parse_errors == g.errors
                &&& c.duration_minutes == minutes_taken(g.first, g.last)
                &&& c.preview == preview_text(g.search, show_last)
                &&& c.summary is None && c.model is None && c.total_tokens == 0
                &&& c.search_text_lower is None && c.search_topic_end is None
            }
        }),
{
    let g = gathered(lines, workspace, lines.len());
    lemma_search_words(lines, workspace, lines.len());
    lemma_every_search_text_has_a_word(lines, workspace, lines.len());
    if g.search.len() > 0 {
        law_words_of_a_part(g.search, 0, g.search.len());
        assert(words(g.search[0]).len() > 0);
    }
    lemma_last_piece(project_dir_name);
}

proof fn lemma_last_piece(s: Seq<char>)
    ensures
        ({
            let last = crate::text::split_on(s, '-').last();
            &&& crate::text::split_on(s, '-').len() > 0
            &&& !last.contains('-')
            &&& last.is_suffix_of(s)
            &&& s.len() > 0 && s.last() != '-' ==> last.len() > 0
        }),
    decreases s.len(),
{
    let pieces = crate::text::split_on(s, '-');
    let last = pieces.last();
    if s.len() == 0 {
        assert(last =~= s.subrange(s.len() - last.len(), s.len() as int));
    } else {
        lemma_last_piece(s.drop_last());
        let front = crate::text::split_on(s.drop_last(), '-');
        if s.last() == '-' {
            assert(last.len() == 0);
            assert(last =~= s.subrange(s.len() - last.len(), s.len() as int));
        } else {
            let f = front.last();
            assert(last == f.push(s.last()));
            let d = s.drop_last();
            assert(f == d.subrange(d.len() - f.len(), d.len() as int));
            assert forall|i: int| 0 <= i < last.len() implies last[i] == s[s.len() - last.len()
                + i] && last[i] != '-' by {
                if i < f.len() {
                    assert(f[i] == d[d.len() - f.len() + i]);
                    assert(f.contains(f[i]));
                }
            }
            assert(last =~= s.subrange(s.len() - last.len(), s.len() as int));
        }
    }
}

proof fn lemma_first_word_of_joined(parts: Seq<Seq<char>>)
    requires
        parts.len() > 0,
        words(parts[0]).len() > 0,
    ensures
        words(joined(parts, " ... "@)).len() > 0,
    decreases parts.len(),
{
    if parts.len() > 1 {
        lemma_first_word_of_joined(parts.drop_last());
        lemma_words_around_dots(joined(parts.drop_last(), " ... "@), parts.last());
    }
}

proof fn lemma_names_have_words(blocks: Seq<TranscriptBlock>, n: nat)
    ensures
        forall|i: int| 0 <= i < block_names(blocks, n).len() ==> words(
            #[trigger] block_names(blocks, n)[i],
        ).len() > 0,
    decreases n,
{
    if n > 0 {
        lemma_names_have_words(blocks, (n - 1) as nat);
        let before = block_names(blocks, (n - 1) as nat);
        let names = block_names(blocks, n);
        assert forall|i: int| 0 <= i < names.len() implies words(#[trigger] names[i]).len()
            > 0 by {
            if i < before.len() {
                assert(names[i] == before[i]);
            } else {
                reveal_strlit("Tool: ");
                reveal_strlit("Thinking");
                assert(names[i][0] == 'T');
                crate::text::law_words_are_runs_of_the_text(names[i], 0);
            }
        }
    }
}

proof fn lemma_every_search_text_has_a_word(
    lines: Seq<TranscriptLine>,
    workspace: Option<Seq<char>>,
    n: nat,
)
    requires
        n <= lines.len(),
    ensures
        forall|i: int|
            0 <= i < gathered(lines, workspace, n).search.len() ==> words(
                #[trigger] gathered(lines, workspace, n).search[i],
            ).len() > 0,
    decreases n,
{
    if n > 0 {
        lemma_every_search_text_has_a_word(lines, workspace, (n - 1) as nat);
        let before = gathered(lines, workspace, (n - 1) as nat).search;
        let search = gathered(lines, workspace, n).search;
        match lines[n - 1] {
            TranscriptLine::Text { content, record: Ok(record) } => {
                if !is_blank(content@) {
                    lemma_line_adds(record, content, n, workspace);
                    lemma_names_have_words(record.content@, record.content@.len());
                    let names = block_names(record.content@, record.content@.len());
                    let role = lowercase(record.role@);
                    law_line_is_found_by_its_words(
                        &record,
                        n,
                        workspace,
                        role,
                        opt_reading(opt_text(record.timestamp)),
                    );
                    if names.len() > 0 {
                        let first = names.take(
                            if names.len() < 3 {
                                names.len() as int
                            } else {
                                3
                            },
                        );
                        assert(words(names[0]).len() > 0);
                        assert(first[0] == names[0]);
                        lemma_first_word_of_joined(first);
                    }
                }
            },
            _ => {},
        }
        assert forall|i: int| 0 <= i < search.len() implies words(#[trigger] search[i]).len()
            > 0 by {
            if i < before.len() {
                assert(search[i] == before[i]);
            }
        }
    }
}

/// Where a line tells the time, that time is the first of a transcript unless an earlier line
/// tells one, and the last unless a later one does.
pub proof fn law_first_and_last_times(
    lines: Seq<TranscriptLine>,
    workspace: Option<Seq<char>>,
    n: nat,
    line: TranscriptLine,
    content: String,
    record: TranscriptRecord,
)
    requires
        n < lines.len(),
        lines[n as int] == line,
        line == (TranscriptLine::Text { content, record: Ok(record) }),
        !is_blank(content@),
        line_of(&record, n + 1, workspace) is Some,
    ensures
        ({
            let before = gathered(lines, workspace, n);
            let after = gathered(lines, workspace, n + 1);
            let told = match record.timestamp {
                Some(t) => crate::time::rfc3339_reading(t@),
                None => None,
            };
            &&& after.messages == before.messages + 1
            &&& after.errors == before.errors
            &&& told is Some ==> after.last == told
            &&& told is None ==> after.last == before.last
            &&& before.first is None ==> after.first == told
            &&& before.first is Some ==> after.first == before.first
        }),
{
}

/// A line that cannot be read, or that holds no record, is an error of the conversation, under
/// its number and with what was in it; it adds no message, and neither does a blank line, which
/// is no error.
pub proof fn law_bad_lines_are_reported(
    lines: Seq<TranscriptLine>,
    workspace: Option<Seq<char>>,
    n: nat,
)
    requires
        n < lines.len(),
    ensures
        ({
            let before = gathered(lines, workspace, n);
            let after = gathered(lines, workspace, n + 1);
            &&& before.errors.is_prefix_of(after.errors)
            &&& match lines[n as int] {
                TranscriptLine::Unreadable(why) => after == (GatheredView {
                    errors: before.errors.push(
                        ParseErrorView {
                            line_number: n + 1,
                            line_content: Seq::empty(),
                            error_message: why@,
                            context_before: Seq::empty(),
                            context_after: Seq::empty(),
                        },
                    ),
                    ..before
                }),
                TranscriptLine::Text { content, record } => {
                    &&& is_blank(content@) ==> after == before
                    &&& !is_blank(content@) && record is Err ==> after == (GatheredView {
                        errors: before.errors.push(
                            ParseErrorView {
                                line_number: n + 1,
                                line_content: content@,
                                error_message: record->Err_0@,
                                context_before: Seq::empty(),
                                context_after: Seq::empty(),
                            },
                        ),
                        ..before
                    })
                },
            }
        }),
{
    let before = gathered(lines, workspace, n);
    let after = gathered(lines, workspace, n + 1);
    assert(before.errors =~= after.errors.subrange(0, before.errors.len() as int));
}

/// Reading a conversation stops at the first line that cannot be read, and tells why; up to
/// there, the messages are those of the lines in order.
pub proof fn law_reading_stops_at_the_first_bad_line(
    path: Seq<char>,
    lines: Seq<TranscriptLine>,
    workspace: Option<Seq<char>>,
    n: nat,
)
    requires
        n < lines.len(),
        entries_in(path, lines, workspace, n) is Ok,
    ensures
        ({
            let before = entries_in(path, lines, workspace, n)->Ok_0;
            let after = entries_in(path, lines, workspace, n + 1);
            match lines[n as int] {
                TranscriptLine::Unreadable(why) => after == Err::<
                    Seq<LogEntryView>,
                    AppErrorView,
                >(AppErrorView::Io(why@)),
                TranscriptLine::Text { content, record } => {
                    &&& is_blank(content@) ==> after == Ok::<Seq<LogEntryView>, AppErrorView>(
                        before,
                    )
                    &&& !is_blank(content@) && record is Err ==> after == Err::<
                        Seq<LogEntryView>,
                        AppErrorView,
                    >(
                        AppErrorView::ClaudeExecutionError(
                            "Failed to parse Cursor Agent transcript "@ + path + " line "@
                                + decimal(n + 1) + ": "@ + record->Err_0@,
                        ),
                    )
                    &&& !is_blank(content@) && record is Ok ==> {
                        let line = line_of(&record->Ok_0, n + 1, workspace);
                        &&& line is Some ==> after == Ok::<Seq<LogEntryView>, AppErrorView>(
                            before.push(line->0.entry),
                        )
                        &&& line is None ==> after == Ok::<Seq<LogEntryView>, AppErrorView>(
                            before,
                        )
                    }
                },
            }
        }),
{
}

/// How long a conversation took: the whole minutes between its first and its last time, where
/// there is at least one.
pub proof fn law_minutes_taken(a: Timestamp, b: Timestamp)
    requires
        a.wf(),
        b.wf(),
        a.nanos == 0,
        b.nanos == 0,
    ensures
        minutes_taken(Some(a), Some(b)) == (if b.secs - a.secs >= 60 {
            Some(((b.secs - a.secs) / 60) as u64)
        } else {
            None
        }),
        minutes_taken(Some(a), None) is None,
        minutes_taken(None, Some(b)) is None,
        minutes_taken(None, None) is None,
{
    let d = b.secs - a.secs;
    assert(crate::time::nanos_between(b, a) == d * 1_000_000_000);
    if d >= 0 {
        assert((d * 1_000_000_000) / 60_000_000_000 == d / 60);
    } else {
        assert((-(d * 1_000_000_000)) / 60_000_000_000 >= 0);
    }
}

/// A tool, a result or a thought that does not say its id is told apart by where it stands, and
/// what else it does not say is filled in.
pub proof fn law_missing_parts_are_filled_in(
    block: TranscriptBlock,
    line_idx: nat,
    block_idx: nat,
)
    ensures
        block.block_type@ == "tool_use"@ && block.name is None && block.input is None && block.id
            is None ==> content_of(&block, line_idx, block_idx) == Some(
            ContentBlockView::ToolUse {
                id: "cursor-agent-"@ + decimal(line_idx) + "-"@ + decimal(block_idx),
                name: "tool"@,
                input: "null"@,
            },
        ),
        block.block_type@ == "tool_result"@ && block.tool_use_id is None ==> content_of(
            &block,
            line_idx,
            block_idx,
        ) == Some(
            ContentBlockView::ToolResult {
                tool_use_id: "cursor-agent-result-"@ + decimal(line_idx) + "-"@ + decimal(
                    block_idx,
                ),
                content: opt_text(block.content),
            },
        ),
        block.block_type@ == "thinking"@ && block.thinking is None && block.signature is None
            ==> content_of(&block, line_idx, block_idx) == Some(
            ContentBlockView::Thinking {
                thinking: ""@,
                signature: "cursor-agent-thinking-"@ + decimal(line_idx) + "-"@ + decimal(
                    block_idx,
                ),
            },
        ),
        block.block_type@ == "text"@ && block.text is None ==> content_of(
            &block,
            line_idx,
            block_idx,
        ) is None,
        block.block_type@ == "image"@ && block.source is None ==> content_of(
            &block,
            line_idx,
            block_idx,
        ) is None,
        block.block_type@ != "text"@ && block.block_type@ != "tool_use"@ && block.block_type@
            != "tool_result"@ && block.block_type@ != "thinking"@ && block.block_type@
            != "image"@ ==> content_of(&block, line_idx, block_idx) is None,
{
    lemma_kinds_differ();
}

/// The blocks of a message come in the order of the line, one for each block of a known type.
pub proof fn law_blocks_come_in_order(blocks: Seq<TranscriptBlock>, line_idx: nat, n: nat)
    requires
        n < blocks.len(),
    ensures
        contents_among(blocks, line_idx, 0).len() == 0,
        content_of(&blocks[n as int], line_idx, n) is Some ==> contents_among(
            blocks,
            line_idx,
            n + 1,
        ) == contents_among(blocks, line_idx, n).push(
            content_of(&blocks[n as int], line_idx, n)->0,
        ),
        content_of(&blocks[n as int], line_idx, n) is None ==> contents_among(
            blocks,
            line_idx,
            n + 1,
        ) == contents_among(blocks, line_idx, n),
{
}

/// A conversation was last active when its last message was written, else when its file was
/// changed.
pub proof fn law_activity_is_of_the_last_message(
    last: Option<Timestamp>,
    modified: Option<Timestamp>,
    t: Timestamp,
)
    requires
        is_activity_time(last, modified, t),
    ensures
        t.wf(),
        last is Some ==> t.instant() == last->0.instant(),
        last is None && modified is Some ==> t.instant() == modified->0.instant(),
{
}

} // verus!
