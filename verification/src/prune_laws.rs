//! What holds of pruning: which conversations are deleted, and when.

use crate::error::{AppError, AppErrorView};
use crate::history::{Conversation, ProviderKind, ToolName};
use crate::numbers::in_units;
use crate::order::{is_order, rearranged};
use crate::path_laws::{is_plain_name, law_join_adds_a_component};
use crate::paths::{components, spec_file_name, spec_join, spec_parent};
use crate::prune::{
    age_keys, bytes_text, compared_texts, compared_time, duration_secs, gathered, is_cutoff_at,
    is_oldest_first, is_trash_plan, is_victim, known_total, lemma_victims_among, min_age_span,
    nothing_message, prune_step_for, says_yes, trash_path, victim_line, victim_list, victims_among,
    victims_of, ProviderBatch, ProviderFilter, PruneArgs, PruneStep, RemovalStep, Tally,
    TimestampSource, TrashPlan,
};
use crate::text::{
    contains_run, decimal, is_blank, is_space, law_decimal_reads_back, law_padding_adds_spaces,
    law_trimming_takes_off_white_space, padded_right, trimmed,
};
use crate::time::{date_reading, minute_text, Timestamp};
use vstd::prelude::*;

verus! {

/// Whether `t` is the time of a conversation that is held against the cutoff: that of its first
/// or its last message where that is asked for and known, else that of its last change.
pub open spec fn is_held_against(conv: Conversation, source: TimestampSource, t: Timestamp)
    -> bool {
    match source {
        TimestampSource::Mtime => t == conv.timestamp,
        TimestampSource::FirstMessage => {
            &&& conv.first_message_time is Some ==> t == conv.first_message_time->0
            &&& conv.first_message_time is None ==> t == conv.timestamp
        },
        TimestampSource::LastMessage => {
            &&& conv.last_message_time is Some ==> t == conv.last_message_time->0
            &&& conv.last_message_time is None ==> t == conv.timestamp
        },
    }
}

/// What a deleted conversation has in common with every other, whatever its provider: where a
/// project is named, the path or the name of its project contains that text; where deleted
/// projects are to be left alone, its project is there; it is older than the cutoff; and it was
/// last changed before the threshold. Every conversation of which all this holds is deleted.
pub proof fn law_deleted_is_what_was_asked_for(
    conv: &Conversation,
    project_exists: bool,
    args: &PruneArgs,
    cutoff: Timestamp,
    min_age_threshold: Timestamp,
    t: Timestamp,
)
    requires
        is_held_against(*conv, args.timestamp_source, t),
    ensures
        is_victim(conv, project_exists, args, cutoff, min_age_threshold) <==> {
            &&& args.project is Some ==> {
                ||| conv.project_path is Some && contains_run(
                    conv.project_path->0@,
                    args.project->0@,
                )
                ||| conv.project_name is Some && contains_run(
                    conv.project_name->0@,
                    args.project->0@,
                )
            }
            &&& !(args.exclude_deleted_projects && conv.project_path is Some && !project_exists)
            &&& t.instant() < cutoff.instant()
            &&& conv.timestamp.instant() < min_age_threshold.instant()
        },
{
}

/// Whether a provider is one of those that pruning was asked for.
pub open spec fn asked_for(args: &PruneArgs, kind: ProviderKind) -> bool {
    ||| args.provider is None
    ||| args.provider == Some(ProviderFilter::All)
    ||| args.provider == Some(ProviderFilter::Claude) && kind == ProviderKind::Claude
    ||| args.provider == Some(ProviderFilter::Cursor) && kind == ProviderKind::Cursor
    ||| args.provider == Some(ProviderFilter::CursorAgent) && kind == ProviderKind::CursorAgent
}

/// With a project named, every deleted conversation has a project path or a project name that
/// contains it, whatever its provider.
pub proof fn law_victims_are_of_the_project(
    convs: Seq<Conversation>,
    present: Seq<bool>,
    args: &PruneArgs,
    cutoff: Timestamp,
    min_age_threshold: Timestamp,
    project: Seq<char>,
    i: int,
)
    requires
        convs.len() <= usize::MAX,
        args.project is Some,
        args.project->0@ == project,
        0 <= i < victims_of(convs, present, args, cutoff, min_age_threshold).len(),
    ensures
        ({
            let v = victims_of(convs, present, args, cutoff, min_age_threshold)[i];
            ||| v.project_path is Some && contains_run(v.project_path->0@, project)
            ||| v.project_name is Some && contains_run(v.project_name->0@, project)
        }),
{
    lemma_victims_among(convs, present, args, cutoff, min_age_threshold, convs.len());
    let kept = victims_among(convs, present, args, cutoff, min_age_threshold, convs.len());
    assert(kept[i] < convs.len());
}

/// Whether conversation `k` of batch `b` is as asked: of a provider that pruning was asked for,
/// and one that meets the conditions.
pub open spec fn is_as_asked(
    batches: Seq<ProviderBatch>,
    args: &PruneArgs,
    cutoff: Timestamp,
    min_age_threshold: Timestamp,
    b: int,
    k: int,
) -> bool {
    &&& asked_for(args, batches[b].kind)
    &&& is_victim(
        &batches[b].conversations@[k],
        batches[b].present@[k],
        args,
        cutoff,
        min_age_threshold,
    )
}

/// Whether a conversation is one of the first `n` batches, and as asked.
pub open spec fn is_one_asked_for(
    batches: Seq<ProviderBatch>,
    args: &PruneArgs,
    cutoff: Timestamp,
    min_age_threshold: Timestamp,
    n: nat,
    conv: Conversation,
) -> bool {
    exists|b: int, k: int|
        0 <= b < n && 0 <= k < batches[b].conversations@.len() && conv
            == batches[b].conversations@[k] && #[trigger] is_as_asked(
            batches,
            args,
            cutoff,
            min_age_threshold,
            b,
            k,
        )
}

proof fn lemma_gathered(
    batches: Seq<ProviderBatch>,
    args: &PruneArgs,
    cutoff: Timestamp,
    min_age_threshold: Timestamp,
    n: nat,
    c: Conversation,
)
    requires
        n <= batches.len(),
        forall|b: int| 0 <= b < batches.len() ==> (
        #[trigger] batches[b]).conversations@.len() <= usize::MAX,
    ensures
        gathered(batches, args, cutoff, min_age_threshold, n).contains(c) <==> is_one_asked_for(
            batches,
            args,
            cutoff,
            min_age_threshold,
            n,
            c,
        ),
    decreases n,
{
    if n > 0 {
        let m = (n - 1) as nat;
        lemma_gathered(batches, args, cutoff, min_age_threshold, m, c);
        let before = gathered(batches, args, cutoff, min_age_threshold, m);
        let all = gathered(batches, args, cutoff, min_age_threshold, n);
        let batch = batches[m as int];
        let convs = batch.conversations@;
        let present = batch.present@;
        lemma_victims_among(convs, present, args, cutoff, min_age_threshold, convs.len());
        let kept = victims_among(convs, present, args, cutoff, min_age_threshold, convs.len());
        let own = victims_of(convs, present, args, cutoff, min_age_threshold);
        if all.contains(c) {
            let i = choose|i: int| 0 <= i < all.len() && all[i] == c;
            if i < before.len() {
                assert(before[i] == c);
                let (b, k) = choose|b: int, k: int|
                    0 <= b < m && 0 <= k < batches[b].conversations@.len() && c
                        == batches[b].conversations@[k] && #[trigger] is_as_asked(
                        batches,
                        args,
                        cutoff,
                        min_age_threshold,
                        b,
                        k,
                    );
                assert(is_as_asked(batches, args, cutoff, min_age_threshold, b, k));
            } else {
                let k = kept[i - before.len()] as int;
                assert(all[i] == own[i - before.len()]);
                assert(is_as_asked(batches, args, cutoff, min_age_threshold, m as int, k));
            }
        }
        if is_one_asked_for(batches, args, cutoff, min_age_threshold, n, c) {
            let (b, k) = choose|b: int, k: int|
                0 <= b < n && 0 <= k < batches[b].conversations@.len() && c
                    == batches[b].conversations@[k] && #[trigger] is_as_asked(
                    batches,
                    args,
                    cutoff,
                    min_age_threshold,
                    b,
                    k,
                );
            if b < m {
                assert(is_as_asked(batches, args, cutoff, min_age_threshold, b, k));
                assert(before.contains(c));
                let j = choose|j: int| 0 <= j < before.len() && before[j] == c;
                assert(all[j] == c);
            } else {
                assert(kept.contains(k as usize));
                let j = choose|j: int| 0 <= j < kept.len() && kept[j] == k as usize;
                assert(own[j] == c);
                assert(all[before.len() + j] == c);
            }
        }
    }
}

/// A run of pruning deletes exactly the conversations of the providers it was asked for that meet
/// the conditions: of a deleted one, the provider, the project and the times are as asked, and
/// none that is as asked is left out.
pub proof fn law_pruning_deletes_what_was_asked_for(
    batches: Seq<ProviderBatch>,
    args: &PruneArgs,
    cutoff: Timestamp,
    min_age_threshold: Timestamp,
    sorted: Seq<Conversation>,
    c: Conversation,
)
    requires
        is_oldest_first(
            gathered(batches, args, cutoff, min_age_threshold, batches.len()),
            sorted,
        ),
        forall|b: int| 0 <= b < batches.len() ==> (
        #[trigger] batches[b]).conversations@.len() <= usize::MAX,
        gathered(batches, args, cutoff, min_age_threshold, batches.len()).len() <= usize::MAX,
    ensures
        sorted.contains(c) <==> is_one_asked_for(
            batches,
            args,
            cutoff,
            min_age_threshold,
            batches.len(),
            c,
        ),
{
    lemma_gathered(batches, args, cutoff, min_age_threshold, batches.len(), c);
    let all = gathered(batches, args, cutoff, min_age_threshold, batches.len());
    let keys = age_keys(all);
    let o = choose|o: Seq<usize>| #[trigger] is_order(keys, o) && sorted == rearranged(all, o);
    if sorted.contains(c) {
        let i = choose|i: int| 0 <= i < sorted.len() && sorted[i] == c;
        assert(all[o[i] as int] == c);
    }
    if all.contains(c) {
        let j = choose|j: int| 0 <= j < all.len() && all[j] == c;
        assert(o.contains(j as usize));
        let i = choose|i: int| 0 <= i < o.len() && o[i] == j as usize;
        assert(sorted[i] == c);
    }
}

proof fn lemma_duration_of(before: Seq<char>, digits: Seq<char>, unit: char, after: Seq<char>)
    requires
        is_blank(before),
        is_blank(after),
        digits.len() > 0,
        crate::text::all_digits(digits),
        !is_space(unit),
    ensures
        trimmed(before + digits.push(unit) + after) == digits.push(unit),
        digits.push(unit).drop_last() == digits,
        digits.push(unit).last() == unit,
{
    let text = digits.push(unit);
    assert(crate::text::is_digit(digits[0]));
    assert(text[0] == digits[0]);
    law_trimming_takes_off_white_space(before, text, after);
    assert(text.drop_last() =~= digits);
}

/// A number and a unit are read as that many seconds, minutes, hours, days, weeks or months of
/// thirty days, with or without white space around them; a duration with another unit, or that
/// is too long, is none.
pub proof fn law_durations_are_counts_of_units(
    n: nat,
    unit: char,
    before: Seq<char>,
    after: Seq<char>,
)
    requires
        is_blank(before),
        is_blank(after),
        n <= u64::MAX,
        !is_space(unit),
    ensures
        ({
            let secs = duration_secs(before + decimal(n).push(unit) + after);
            let factor: nat = if unit == 's' {
                1
            } else if unit == 'm' {
                60
            } else if unit == 'h' {
                60 * 60
            } else if unit == 'd' {
                24 * 60 * 60
            } else if unit == 'w' {
                7 * 24 * 60 * 60
            } else if unit == 'M' {
                30 * 24 * 60 * 60
            } else {
                0
            };
            secs == (if factor > 0 && n * factor <= u64::MAX {
                Some(n * factor)
            } else {
                None
            })
        }),
        duration_secs(before + after) is None,
{
    let digits = decimal(n);
    law_decimal_reads_back(n);
    lemma_duration_of(before, digits, unit, after);
    let white = before + after;
    assert forall|i: int| 0 <= i < white.len() implies is_space(#[trigger] white[i]) by {
        if i < before.len() {
            assert(is_space(before[i]));
        } else {
            assert(is_space(after[i - before.len()]));
        }
    }
    crate::text::law_blank_iff_trims_to_nothing(white);
}

/// The cutoff lies as far back as was asked for, and is refused where none or two were asked for.
/// A cutoff of a date is the beginning of that day.
pub proof fn law_cutoff_lies_as_far_back_as_asked(
    args: &PruneArgs,
    now: Timestamp,
    r: Option<Result<Timestamp, AppError>>,
    secs: nat,
)
    requires
        now.wf(),
        now.nanos < 1_000_000_000,
        is_cutoff_at(args, now, r),
    ensures
        args.older_than is Some && args.before is None && duration_secs(args.older_than->0@)
            == Some(secs) && secs <= 9_223_372_036_854_775 ==> match r {
            Some(Ok(t)) => t.secs == now.secs - secs && t.nanos == now.nanos,
            Some(Err(_)) => false,
            None => now.secs - secs < -8_334_601_228_800,
        },
        args.older_than is Some && args.before is None && duration_secs(args.older_than->0@)
            is None ==> r is Some && r->0 is Err && r->0->Err_0@ == AppErrorView::ConfigError(
            "invalid --older-than: "@ + args.older_than->0@,
        ),
        args.older_than is Some && args.before is Some ==> r is Some && r->0 is Err,
        args.older_than is None && args.before is None ==> r is Some && r->0 is Err,
{
}

/// A minimum age is the span that it says, unless that is longer than can be held.
pub proof fn law_min_age_is_kept(secs: nat)
    ensures
        secs <= 9_223_372_036_854_775 ==> min_age_span(secs) == secs,
        secs > 9_223_372_036_854_775 ==> min_age_span(secs) == 0,
{
}

/// What follows once the conversations to delete are known: with none nothing happens; a dry run
/// only lists them; with consent they are deleted; else the user is asked where there is a
/// terminal, and nothing is deleted where there is none.
pub proof fn law_prune_steps(count: nat, args: &PruneArgs, interactive: bool)
    ensures
        prune_step_for(count, args, interactive) == PruneStep::NothingToDo <==> count == 0,
        prune_step_for(count, args, interactive) == PruneStep::DryRun <==> count > 0
            && args.dry_run,
        prune_step_for(count, args, interactive) == PruneStep::Proceed <==> count > 0
            && !args.dry_run && args.yes,
        prune_step_for(count, args, interactive) == PruneStep::Confirm <==> count > 0
            && !args.dry_run && !args.yes && interactive,
        prune_step_for(count, args, interactive) == PruneStep::RefuseWithoutTerminal <==> count
            > 0 && !args.dry_run && !args.yes && !interactive,
{
}

/// The user agrees by `y` or `yes`, in upper or lower case and with white space around it, and
/// by nothing else.
pub proof fn law_only_yes_is_consent(before: Seq<char>, answer: Seq<char>, after: Seq<char>)
    requires
        is_blank(before),
        is_blank(after),
    ensures
        answer == "y"@ || answer == "Y"@ || answer == "yes"@ || answer == "Yes"@ || answer
            == "YES"@ ==> says_yes(before + answer + after),
        says_yes(answer) ==> trimmed(answer).len() == 1 || trimmed(answer).len() == 3,
        says_yes(answer) ==> trimmed(answer)[0] == 'y' || trimmed(answer)[0] == 'Y',
        says_yes(answer) && trimmed(answer).len() == 3 ==> (trimmed(answer)[1] == 'e' || trimmed(
            answer,
        )[1] == 'E') && (trimmed(answer)[2] == 's' || trimmed(answer)[2] == 'S'),
        !says_yes(before + after),
        answer == "n"@ || answer == "no"@ ==> !says_yes(before + answer + after),
{
    reveal_strlit("y");
    reveal_strlit("Y");
    reveal_strlit("yes");
    reveal_strlit("Yes");
    reveal_strlit("YES");
    reveal_strlit("n");
    reveal_strlit("no");
    law_trimming_takes_off_white_space(before, answer, after);
    let white = before + after;
    assert forall|i: int| 0 <= i < white.len() implies is_space(#[trigger] white[i]) by {
        if i < before.len() {
            assert(is_space(before[i]));
        } else {
            assert(is_space(after[i - before.len()]));
        }
    }
    crate::text::law_blank_iff_trims_to_nothing(white);
}

/// The list that is shown before anything is deleted has a line for each conversation, in order,
/// that begins with its time, names its provider and its project and ends in its path, and it
/// ends in how many they are.
pub proof fn law_every_victim_is_listed(
    victims: Seq<Conversation>,
    tool: &ToolName,
    source: TimestampSource,
    cutoff: Seq<char>,
    times: Seq<Seq<char>>,
    i: int,
)
    requires
        times.len() == victims.len(),
        0 <= i < victims.len(),
    ensures
        ({
            let list = victim_list(victims, tool, source, cutoff, times);
            let line = list[i + 1];
            let name = match victims[i].provider {
                ProviderKind::Claude => tool.label@,
                ProviderKind::Cursor => "Cursor"@,
                ProviderKind::CursorAgent => "Cursor Agent"@,
            };
            &&& list.len() == victims.len() + 2
            &&& ("  "@ + times[i] + " "@ + name).is_prefix_of(line)
            &&& ("  "@ + victims[i].path@).is_suffix_of(line)
            &&& victims[i].project_name is Some ==> contains_run(line, victims[i].project_name->0@)
            &&& contains_run(line, decimal(victims[i].message_count as nat))
            &&& contains_run(list[0], cutoff)
            &&& list.last() == "Total: "@ + decimal(victims.len())
        }),
{
    let list = victim_list(victims, tool, source, cutoff, times);
    let line = list[i + 1];
    let conv = victims[i];
    let name = match conv.provider {
        ProviderKind::Claude => tool.label@,
        ProviderKind::Cursor => "Cursor"@,
        ProviderKind::CursorAgent => "Cursor Agent"@,
    };
    law_padding_adds_spaces(name, 14);
    let padded = padded_right(name, 14);
    let head = "  "@ + times[i] + " "@ + name;
    assert(padded =~= name + padded.skip(name.len() as int));
    let used = compared_time(&conv, source).1;
    assert(line == victim_line(&conv, tool, times[i], used));
    let count = crate::text::padded_left(decimal(conv.message_count as nat), 3);
    let before = "  "@ + times[i] + " "@ + padded + "  "@;
    let project = match conv.project_name {
        Some(n) => n@,
        None => "-"@,
    };
    let mark = if used {
        " (mtime)"@
    } else {
        ""@
    };
    assert(line == before + count + " msg  "@ + project + mark + "  "@ + conv.path@);
    assert(line.subrange(0, head.len() as int) =~= head);
    let tail = "  "@ + conv.path@;
    assert(line.subrange(line.len() - tail.len(), line.len() as int) =~= tail);
    let at = (before + count + " msg  "@).len() as int;
    assert(line.subrange(at, at + project.len()) =~= project);
    law_padding_adds_spaces(decimal(conv.message_count as nat), 3);
    let digits = decimal(conv.message_count as nat);
    let start = before.len() + count.len() - digits.len();
    assert(line.subrange(start as int, start + digits.len()) =~= digits) by {
        assert(count.subrange(count.len() - digits.len(), count.len() as int) =~= digits);
        assert forall|k: int| 0 <= k < digits.len() implies line[start + k] == digits[k] by {
            assert(line[start + k] == count[count.len() - digits.len() + k]);
            assert(count.subrange(count.len() - digits.len(), count.len() as int)[k] == digits[k]);
        }
    }
    let heading = list[0];
    let lead = "Conversations older than "@;
    assert(heading.subrange(lead.len() as int, lead.len() as int + cutoff.len()) =~= cutoff);
}

/// Sizes that are known add up, in whatever parts they are counted, and an unknown size counts
/// for nothing.
pub proof fn law_sizes_add_up(a: Seq<Option<u64>>, b: Seq<Option<u64>>, n: u64)
    ensures
        known_total(a + b) == known_total(a) + known_total(b),
        known_total(seq![Some(n)]) == n,
        known_total(seq![None::<u64>]) == 0,
        known_total(Seq::<Option<u64>>::empty()) == 0,
    decreases b.len(),
{
    reveal_with_fuel(known_total, 2);
    assert(seq![Some(n)].drop_last() =~= Seq::<Option<u64>>::empty());
    assert(seq![None::<u64>].drop_last() =~= Seq::<Option<u64>>::empty());
    if b.len() == 0 {
        assert(a + b =~= a);
    } else {
        law_sizes_add_up(a, b.drop_last(), n);
        assert((a + b).drop_last() =~= a + b.drop_last());
    }
}

/// Sizes are told in the largest of bytes, kilobytes, megabytes and gigabytes that is not larger.
pub proof fn law_sizes_are_told_in_units(bytes: nat)
    ensures
        bytes < 1024 ==> bytes_text(bytes) == decimal(bytes) + " B"@,
        1024 <= bytes < 1024 * 1024 ==> bytes_text(bytes) == in_units(bytes, 1024) + " KiB"@,
        1024 * 1024 <= bytes < 1024 * 1024 * 1024 ==> bytes_text(bytes) == in_units(
            bytes,
            1024 * 1024,
        ) + " MiB"@,
        bytes >= 1024 * 1024 * 1024 ==> bytes_text(bytes) == in_units(bytes, 1024 * 1024 * 1024)
            + " GiB"@,
{
}

/// Every conversation that was to be removed is counted once, as deleted or as failed: as deleted
/// where it lies in the trash or its provider deleted it, and as failed where its provider is
/// not there or failed.
pub proof fn law_removals_are_counted(tally: Tally, step: RemovalStep, deleted: bool)
    requires
        tally.deleted + tally.failed < usize::MAX,
    ensures
        ({
            let t = tally.finished(step, deleted);
            &&& t.deleted + t.failed == tally.deleted + tally.failed + 1
            &&& step == RemovalStep::NoProvider ==> t.failed == tally.failed + 1
            &&& step == RemovalStep::DropRow ==> t.deleted == tally.deleted + 1
            &&& step == RemovalStep::Delete && deleted ==> t.deleted == tally.deleted + 1
            &&& step == RemovalStep::Delete && !deleted ==> t.failed == tally.failed + 1
        }),
{
}

/// What goes to the trash is the conversation's own: its file, or the session directory that is
/// named after it, and it keeps its name there, in a directory of its provider below the trash.
/// What is not there is not moved, and a conversation without a file of its own never is.
pub proof fn law_trash_takes_what_is_its_own(
    conv: &Conversation,
    tool: &ToolName,
    root: Seq<char>,
    file_exists: bool,
    plan: TrashPlan,
)
    requires
        is_trash_plan(conv, tool, root, file_exists, plan),
    ensures
        plan is Skip <==> !file_exists || conv.provider == ProviderKind::Cursor,
        plan matches TrashPlan::Move { directory, source, dest } ==> {
            &&& source@ == conv.path@ || conv.provider == ProviderKind::CursorAgent
                && spec_parent(conv.path@) == Some(source@) && spec_file_name(source@) == Some(
                conv.id@,
            )
            &&& source@ == conv.path@ && spec_file_name(conv.path@) is Some ==> dest@
                == spec_join(directory@, spec_file_name(conv.path@)->0)
            &&& source@ == conv.path@ && spec_file_name(conv.path@) is None ==> dest@
                == spec_join(directory@, conv.id@)
            &&& source@ != conv.path@ ==> dest@ == spec_join(directory@, conv.id@)
            &&& conv.provider == ProviderKind::CursorAgent ==> directory@ == spec_join(
                root,
                "Cursor-Agent"@,
            )
            &&& conv.provider == ProviderKind::Claude && !tool.label@.contains(' ')
                ==> directory@ == spec_join(root, tool.label@)
        },
{
    reveal_strlit("Cursor Agent");
    reveal_strlit("Cursor-Agent");
    assert(crate::prune::dashed("Cursor Agent"@) =~= "Cursor-Agent"@);
    if !tool.label@.contains(' ') {
        assert forall|i: int| 0 <= i < tool.label@.len() implies tool.label@[i] != ' ' by {
            assert(tool.label@.contains(tool.label@[i]));
        }
        assert(crate::prune::dashed(tool.label@) =~= tool.label@);
    }
    crate::paths::lemma_parent_is_shorter(conv.path@);
}

/// The trash of a run lies below the home directory, under the name of the program and the time
/// of the run.
pub proof fn law_trash_lies_below_home(home: Seq<char>, stamp: Seq<char>)
    requires
        home.len() > 0,
        is_plain_name(stamp),
    ensures
        components(trash_path(home, stamp)) == components(home) + seq![
            ".local"@,
            "state"@,
            "mnemonai"@,
            "trash"@,
            stamp,
        ],
{
    reveal_strlit(".local");
    reveal_strlit("state");
    reveal_strlit("mnemonai");
    reveal_strlit("trash");
    assert(".local"@[1] == 'l');
    let a = spec_join(home, ".local"@);
    let b = spec_join(a, "state"@);
    let c = spec_join(b, "mnemonai"@);
    let d = spec_join(c, "trash"@);
    law_join_adds_a_component(home, ".local"@);
    law_join_adds_a_component(a, "state"@);
    law_join_adds_a_component(b, "mnemonai"@);
    law_join_adds_a_component(c, "trash"@);
    law_join_adds_a_component(d, stamp);
    assert(components(trash_path(home, stamp)) =~= components(home) + seq![
        ".local"@,
        "state"@,
        "mnemonai"@,
        "trash"@,
        stamp,
    ]);
}

/// A time is marked as that of the last change exactly where no other was asked for, or the one
/// that was asked for is not known.
pub proof fn law_times_for_want_of_another_are_marked(conv: &Conversation, source: TimestampSource)
    ensures
        is_held_against(*conv, source, compared_time(conv, source).0),
        !compared_time(conv, source).1 <==> {
            ||| source == TimestampSource::FirstMessage && conv.first_message_time is Some
            ||| source == TimestampSource::LastMessage && conv.last_message_time is Some
        },
{
}

/// The user is told how many of how many conversations were deleted, and how many failed where
/// any did.
pub proof fn law_summary_tells_the_counts(tally: Tally, total: nat)
    ensures
        tally.failed == 0 ==> tally.summary(total) == "Deleted "@ + decimal(tally.deleted as nat)
            + "/"@ + decimal(total) + " conversation(s)"@ + ""@ + "."@,
        tally.failed > 0 ==> tally.summary(total) == "Deleted "@ + decimal(tally.deleted as nat)
            + "/"@ + decimal(total) + " conversation(s)"@ + (" ("@ + decimal(tally.failed as nat)
            + " failed)"@) + "."@,
{
}

/// Why a cutoff is refused: one must be asked for, and only one, and a span must be one that the
/// calendar can hold.
pub proof fn law_refused_cutoffs_are_told(
    args: &PruneArgs,
    now: Timestamp,
    r: Option<Result<Timestamp, AppError>>,
    secs: nat,
)
    requires
        is_cutoff_at(args, now, r),
    ensures
        args.older_than is Some && args.before is Some ==> r is Some && r->0 is Err
            && r->0->Err_0@ == AppErrorView::ConfigError(
            "specify only one of --older-than or --before"@,
        ),
        args.older_than is None && args.before is None ==> r is Some && r->0 is Err
            && r->0->Err_0@ == AppErrorView::ConfigError("must specify --older-than or --before"@),
        args.older_than is Some && args.before is None && duration_secs(args.older_than->0@)
            == Some(secs) && secs > 9_223_372_036_854_775 ==> r is Some && r->0 is Err
            && r->0->Err_0@ == AppErrorView::ConfigError(
            "duration overflow: "@ + "Source duration value is out of range for the target type"@,
        ),
{
}

/// A cutoff of a date is the midnight that begins the day, at the offset that holds there.
pub proof fn law_dates_begin_at_midnight(
    args: &PruneArgs,
    now: Timestamp,
    r: Option<Result<Timestamp, AppError>>,
)
    requires
        is_cutoff_at(args, now, r),
        args.older_than is None,
        args.before is Some,
    ensures
        r is Some,
        ({
            let day = date_reading(args.before->0@, "%Y-%m-%d"@);
            &&& r->0 matches Ok(t) ==> day is Ok && t.nanos == 0 && t.secs + t.offset == day->Ok_0
                * (24 * 60 * 60)
            &&& day is Err ==> r->0 is Err && r->0->Err_0@ == AppErrorView::ConfigError(
                "invalid --before date '"@ + args.before->0@ + "': "@ + day->Err_0,
            )
            &&& day is Ok && r->0 is Err ==> r->0->Err_0@ == AppErrorView::ConfigError(
                "ambiguous local time for "@ + args.before->0@,
            )
        }),
{
}

/// The heading of the list tells the cutoff and which times are held against it, and a time that
/// stands in for another is marked.
pub proof fn law_list_tells_which_times_count(
    victims: Seq<Conversation>,
    tool: &ToolName,
    source: TimestampSource,
    cutoff: Seq<char>,
    times: Seq<Seq<char>>,
    i: int,
)
    requires
        times.len() == victims.len(),
        0 <= i < victims.len(),
    ensures
        ({
            let list = victim_list(victims, tool, source, cutoff, times);
            let which = if source == TimestampSource::Mtime {
                "by mtime"@
            } else if source == TimestampSource::FirstMessage {
                "by first message"@
            } else {
                "by last message"@
            };
            let known = source == TimestampSource::FirstMessage
                && victims[i].first_message_time is Some || source == TimestampSource::LastMessage
                && victims[i].last_message_time is Some;
            &&& list[0] == "Conversations older than "@ + cutoff + " ("@ + which + "):"@
            &&& !known ==> (" (mtime)"@ + "  "@ + victims[i].path@).is_suffix_of(list[i + 1])
        }),
        nothing_message(cutoff) == "No conversations to delete (cutoff "@ + cutoff
            + ")."@,
{
    let line = victim_list(victims, tool, source, cutoff, times)[i + 1];
    let tail = " (mtime)"@ + "  "@ + victims[i].path@;
    let used = compared_time(&victims[i], source).1;
    assert(line == victim_line(&victims[i], tool, times[i], used));
    if used {
        assert(line.subrange(line.len() - tail.len(), line.len() as int) =~= tail);
    }
}

/// The time that is listed for a conversation is the one that is held against the cutoff.
pub proof fn law_listed_times_are_those_compared(
    victims: Seq<Conversation>,
    source: TimestampSource,
    i: int,
)
    requires
        0 <= i < victims.len(),
    ensures
        ({
            let times = compared_texts(victims, source);
            &&& times.len() == victims.len()
            &&& exists|t: Timestamp|
                is_held_against(victims[i], source, t) && times[i]
                    == #[trigger] minute_text(t)
        }),
{
    let t = compared_time(&victims[i], source).0;
    assert(is_held_against(victims[i], source, t));
    assert(compared_texts(victims, source)[i] == minute_text(t));
}

} // verus!
