//! Bulk deletion of conversations by timestamp.
//!
//! Conversations of all providers are filtered by a cutoff timestamp; the underlying files are
//! moved to a trash directory where that is asked for, and then deleted by their provider.

use crate::error::{AppError, AppErrorView};
use crate::history::{all_wf, Conversation, ProviderKind, ToolName};
use crate::numbers::{in_units, units_text};
use crate::order::{
    comes_before, is_order, lemma_order_is_distinct, order_by_key,
    rearrange, rearranged,
};
use crate::paths::{
    file_name, join, opt_text, parent, spec_file_name, spec_join, spec_parent,
};
use crate::text::{
    chars_of, concat, contains, contains_run, decimal, decimal_text, pad_left, pad_right,
    padded_left, padded_right, parse_unsigned, same_text, string_of, sub_chars, texts, trim_chars,
    trimmed, unsigned_value,
};
use crate::time::{
    checked_sub_seconds, date_reading, format_minute, format_time, local_now, local_time,
    minute_text, moved_back, parse_date, rfc3339_text, span_of_seconds, strftime, to_rfc3339,
    Timestamp, DATE_PATTERN, MAX_SPAN_SECS, MIN_SECS, TRASH_PATTERN,
};
use vstd::prelude::*;

verus! {

/// Which providers' conversations are pruned.
#[derive(Clone, Copy, Debug, PartialEq, Eq, Structural)]
pub enum ProviderFilter {
    All,
    Claude,
    Cursor,
    CursorAgent,
}

/// Which time of a conversation is held against the cutoff.
#[derive(Clone, Copy, Debug, PartialEq, Eq, Structural)]
pub enum TimestampSource {
    Mtime,
    FirstMessage,
    LastMessage,
}

/// What pruning was asked for.
#[derive(Debug)]
pub struct PruneArgs {
    /// Delete what is older than this duration.
    pub older_than: Option<String>,
    /// Delete what is from before this date.
    pub before: Option<String>,
    /// Leave alone what changed within this duration.
    pub min_age: String,
    pub provider: Option<ProviderFilter>,
    /// Only conversations whose project path or name holds this text.
    pub project: Option<String>,
    /// Leave alone conversations whose project directory is gone.
    pub exclude_deleted_projects: bool,
    pub timestamp_source: TimestampSource,
    pub dry_run: bool,
    /// Delete without asking.
    pub yes: bool,
    /// Move files to the trash directory first.
    pub trash: bool,
}

// Durations

/// The seconds in a unit of time; months are approximated as 30 days.
pub open spec fn unit_secs(unit: char) -> Option<nat> {
    if unit == 's' {
        Some(1)
    } else if unit == 'm' {
        Some(60)
    } else if unit == 'h' {
        Some(3_600)
    } else if unit == 'd' {
        Some(86_400)
    } else if unit == 'w' {
        Some(604_800)
    } else if unit == 'M' {
        Some(2_592_000)
    } else {
        None
    }
}

/// The seconds that a duration such as `30s` or `2w` stands for.
pub open spec fn duration_secs(input: Seq<char>) -> Option<nat> {
    let t = trimmed(input);
    if t.len() == 0 {
        None
    } else {
        match (unsigned_value(t.drop_last()), unit_secs(t.last())) {
            (Some(n), Some(f)) => if n * f <= u64::MAX {
                Some(n * f)
            } else {
                None
            },
            _ => None,
        }
    }
}

/// Whether the last character of a duration is a single byte, so that it can be split off.
pub open spec fn unit_is_ascii(input: Seq<char>) -> bool {
    trimmed(input).len() > 0 ==> trimmed(input).last() < '\u{80}'
}

/// Whether the last character of a duration is a single byte.
pub fn has_ascii_unit(input: &str) -> (r: bool)
    ensures
        r == unit_is_ascii(input@),
{
    let chars: Vec<char> = chars_of(input);
    let t: Vec<char> = trim_chars(chars.as_slice());
    t.len() == 0 || t[t.len() - 1] < '\u{80}'
}

/// The seconds that a duration such as `30s` or `2w` stands for.
pub fn parse_duration(input: &str) -> (r: Option<u64>)
    requires
        unit_is_ascii(input@),
    ensures
        match r {
            Some(secs) => duration_secs(input@) == Some(secs as nat),
            None => duration_secs(input@) is None,
        },
{
    let chars: Vec<char> = chars_of(input);
    let t: Vec<char> = trim_chars(chars.as_slice());
    if t.len() == 0 {
        return None;
    }
    let num: Vec<char> = sub_chars(t.as_slice(), 0, t.len() - 1);
    assert(num@ =~= t@.drop_last());
    let unit: char = t[t.len() - 1];
    let n: u64 = match parse_unsigned(num.as_slice()) {
        Some(n) => n,
        None => {
            return None;
        },
    };
    let factor: u64 = match unit {
        's' => 1,
        'm' => 60,
        'h' => 3_600,
        'd' => 86_400,
        'w' => 604_800,
        // Months are approximated as 30 days.
        'M' => 2_592_000,
        _ => {
            return None;
        },
    };
    assert(unit_secs(unit) == Some(factor as nat));
    n.checked_mul(factor)
}

// The cutoff

/// Whether a point `span` seconds before `now` lies in the calendar.
pub open spec fn can_go_back(now: Timestamp, span: nat) -> bool {
    moved_back(now, span).0 >= MIN_SECS
}

/// The span that `--older-than` asks for, or why there is none.
pub open spec fn older_than_span(text: Seq<char>) -> Result<nat, AppErrorView> {
    match duration_secs(text) {
        Some(secs) => if secs <= MAX_SPAN_SECS {
            Ok(secs)
        } else {
            Err(
                AppErrorView::ConfigError(
                    "duration overflow: "@
                        + "Source duration value is out of range for the target type"@,
                ),
            )
        },
        None => Err(AppErrorView::ConfigError("invalid --older-than: "@ + text)),
    }
}

/// The span that `--older-than` asks for, or why there is none.
pub fn parse_older_than(text: &str) -> (r: Result<u64, AppError>)
    requires
        unit_is_ascii(text@),
    ensures
        match r {
            Ok(span) => older_than_span(text@) == Ok::<nat, AppErrorView>(span as nat) && span
                <= MAX_SPAN_SECS,
            Err(e) => older_than_span(text@) == Err::<nat, AppErrorView>(e@),
        },
{
    let secs: u64 = match parse_duration(text) {
        Some(secs) => secs,
        None => {
            return Err(AppError::ConfigError(concat("invalid --older-than: ", text)));
        },
    };
    match span_of_seconds(secs) {
        Ok(span) => Ok(span),
        Err(e) => Err(AppError::ConfigError(concat("duration overflow: ", e.as_str()))),
    }
}

/// The cutoff of a date, given the midnight that the machine's time zone gives it.
pub fn midnight_cutoff(before: &str, midnight: Option<Timestamp>) -> (r: Result<
    Timestamp,
    AppError,
>)
    ensures
        match r {
            Ok(t) => midnight == Some(t),
            Err(e) => midnight is None && e@ == AppErrorView::ConfigError(
                "ambiguous local time for "@ + before@,
            ),
        },
{
    match midnight {
        Some(t) => Ok(t),
        None => Err(AppError::ConfigError(concat("ambiguous local time for ", before))),
    }
}

/// What is told of a date that is none.
pub open spec fn bad_date_message(before: Seq<char>, why: Seq<char>) -> Seq<char> {
    "invalid --before date '"@ + before + "': "@ + why
}

/// The cutoff of a date: the local midnight that begins it.
pub fn date_cutoff(before: &str) -> (r: Result<Timestamp, AppError>)
    ensures
        match r {
            Ok(t) => t.wf() && t.nanos == 0 && date_reading(before@, DATE_PATTERN@) is Ok && t.secs
                + t.offset == date_reading(before@, DATE_PATTERN@)->Ok_0 * 86_400,
            Err(e) => match date_reading(before@, DATE_PATTERN@) {
                Err(why) => e@ == AppErrorView::ConfigError(bad_date_message(before@, why)),
                Ok(_) => e@ == AppErrorView::ConfigError("ambiguous local time for "@ + before@),
            },
        },
{
    match parse_date(before, DATE_PATTERN) {
        Ok(day) => midnight_cutoff(before, local_time(day, 0, 0, 0)),
        Err(why) => {
            let mut message: String = concat("invalid --before date '", before);
            message.append("': ");
            message.append(why.as_str());
            Err(AppError::ConfigError(message))
        },
    }
}

/// Whether the cutoff can be told at a given time: the duration can be read, and does not lead
/// out of the calendar.
pub open spec fn cutoff_in_calendar(args: &PruneArgs, now: Timestamp) -> bool {
    (args.older_than matches Some(text) && args.before is None) ==> (older_than_span(
        args.older_than->0@,
    ) matches Ok(span) ==> can_go_back(now, span))
}

/// Whether the arguments name exactly one cutoff, and how they fail to.
pub open spec fn cutoff_choice_error(args: &PruneArgs) -> Option<AppErrorView> {
    if args.older_than is Some && args.before is Some {
        Some(AppErrorView::ConfigError("specify only one of --older-than or --before"@))
    } else if args.older_than is None && args.before is None {
        Some(AppErrorView::ConfigError("must specify --older-than or --before"@))
    } else {
        None
    }
}

/// What the result of resolving the cutoff at a given time says.
pub open spec fn is_cutoff(args: &PruneArgs, now: Timestamp, r: Result<Timestamp, AppError>) -> bool {
    match cutoff_choice_error(args) {
        Some(e) => r is Err && r->Err_0@ == e,
        None => if args.older_than is Some {
            match older_than_span(args.older_than->0@) {
                Ok(span) => r is Ok && r->Ok_0.wf() && (
                    r->Ok_0.secs as int,
                    r->Ok_0.nanos as int,
                ) == moved_back(now, span),
                Err(e) => r is Err && r->Err_0@ == e,
            }
        } else {
            match date_reading(args.before->0@, DATE_PATTERN@) {
                Ok(day) => match r {
                    Ok(t) => t.wf() && t.nanos == 0 && t.secs + t.offset == day * 86_400,
                    Err(e) => e@ == AppErrorView::ConfigError(
                        "ambiguous local time for "@ + args.before->0@,
                    ),
                },
                Err(why) => r is Err && r->Err_0@ == AppErrorView::ConfigError(
                    bad_date_message(args.before->0@, why),
                ),
            }
        },
    }
}

/// What resolving the cutoff at a given time gives: nothing where it would lie before the
/// calendar begins.
pub open spec fn is_cutoff_at(
    args: &PruneArgs,
    now: Timestamp,
    r: Option<Result<Timestamp, AppError>>,
) -> bool {
    match r {
        Some(cutoff) => cutoff_in_calendar(args, now) && is_cutoff(args, now, cutoff),
        None => !cutoff_in_calendar(args, now),
    }
}

/// The cutoff that the arguments name, at a given time; nothing where it would lie before the
/// calendar begins.
pub fn resolve_cutoff_at(args: &PruneArgs, now: Timestamp) -> (r: Option<
    Result<Timestamp, AppError>,
>)
    requires
        now.wf(),
        args.older_than matches Some(text) ==> unit_is_ascii(text@),
    ensures
        is_cutoff_at(args, now, r),
        r matches Some(Ok(t)) ==> t.wf(),
{
    match (&args.older_than, &args.before) {
        (Some(older_than), None) => {
            match parse_older_than(older_than.as_str()) {
                Ok(span) => match checked_sub_seconds(now, span) {
                    Some(t) => Some(Ok(t)),
                    None => None,
                },
                Err(e) => Some(Err(e)),
            }
        },
        (None, Some(before)) => Some(date_cutoff(before.as_str())),
        (Some(_), Some(_)) => Some(
            Err(
                AppError::ConfigError(
                    "specify only one of --older-than or --before".to_owned(),
                ),
            ),
        ),
        (None, None) => Some(
            Err(AppError::ConfigError("must specify --older-than or --before".to_owned())),
        ),
    }
}

/// The cutoff that the arguments name, now; nothing where it would lie before the calendar
/// begins.
pub fn resolve_cutoff(args: &PruneArgs) -> (r: Option<Result<Timestamp, AppError>>)
    requires
        args.older_than matches Some(text) ==> unit_is_ascii(text@),
    ensures
        exists|now: Timestamp|
            now.wf() && now.secs >= 0 && #[trigger] is_cutoff_at(args, now, r),
        r matches Some(Ok(t)) ==> t.wf(),
{
    let now: Timestamp = local_now();
    resolve_cutoff_at(args, now)
}

// The conversations to delete

pub open spec fn filter_admits(filter: ProviderFilter, kind: ProviderKind) -> bool {
    match filter {
        ProviderFilter::All => true,
        ProviderFilter::Claude => kind == ProviderKind::Claude,
        ProviderFilter::Cursor => kind == ProviderKind::Cursor,
        ProviderFilter::CursorAgent => kind == ProviderKind::CursorAgent,
    }
}

pub fn provider_matches(kind: ProviderKind, filter: ProviderFilter) -> (r: bool)
    ensures
        r == filter_admits(filter, kind),
{
    match (filter, kind) {
        (ProviderFilter::All, _) => true,
        (ProviderFilter::Claude, ProviderKind::Claude) => true,
        (ProviderFilter::Cursor, ProviderKind::Cursor) => true,
        (ProviderFilter::CursorAgent, ProviderKind::CursorAgent) => true,
        _ => false,
    }
}

/// The providers that are pruned: all, unless the arguments name one.
pub fn provider_filter(args: &PruneArgs) -> (r: ProviderFilter)
    ensures
        r == (match args.provider {
            Some(f) => f,
            None => ProviderFilter::All,
        }),
{
    match args.provider {
        Some(f) => f,
        None => ProviderFilter::All,
    }
}

/// The name of a provider.
pub open spec fn provider_name(kind: ProviderKind, tool: &ToolName) -> Seq<char> {
    match kind {
        ProviderKind::Claude => tool.label@,
        ProviderKind::Cursor => "Cursor"@,
        ProviderKind::CursorAgent => "Cursor Agent"@,
    }
}

pub fn provider_label(kind: ProviderKind, tool: &ToolName) -> (r: &str)
    ensures
        r@ == provider_name(kind, tool),
{
    match kind {
        ProviderKind::Claude => tool.label.as_str(),
        ProviderKind::Cursor => "Cursor",
        ProviderKind::CursorAgent => "Cursor Agent",
    }
}

/// The time of a conversation that is held against the cutoff, and whether it is that of the
/// last change for want of another.
pub open spec fn compared_time(conv: &Conversation, source: TimestampSource) -> (Timestamp, bool) {
    match source {
        TimestampSource::Mtime => (conv.timestamp, true),
        TimestampSource::FirstMessage => match conv.first_message_time {
            Some(t) => (t, false),
            None => (conv.timestamp, true),
        },
        TimestampSource::LastMessage => match conv.last_message_time {
            Some(t) => (t, false),
            None => (conv.timestamp, true),
        },
    }
}

/// Returns (timestamp to compare, whether it is that of the last change).
pub fn compare_timestamp(conv: &Conversation, source: TimestampSource) -> (r: (Timestamp, bool))
    ensures
        r == compared_time(conv, source),
{
    match source {
        TimestampSource::Mtime => (conv.timestamp, true),
        TimestampSource::FirstMessage => match conv.first_message_time {
            Some(t) => (t, false),
            None => (conv.timestamp, true),
        },
        TimestampSource::LastMessage => match conv.last_message_time {
            Some(t) => (t, false),
            None => (conv.timestamp, true),
        },
    }
}

/// Whether an optional text holds another text.
pub open spec fn holds(text: Option<Seq<char>>, part: Seq<char>) -> bool {
    match text {
        Some(t) => contains_run(t, part),
        None => false,
    }
}

/// Whether a conversation is deleted: it belongs to the named project, its project is there
/// where that is asked for, it is older than the cutoff, and it was not changed lately.
pub open spec fn is_victim(
    conv: &Conversation,
    project_exists: bool,
    args: &PruneArgs,
    cutoff: Timestamp,
    min_age_threshold: Timestamp,
) -> bool {
    &&& args.project matches Some(project) ==> holds(opt_text(conv.project_path), project@)
        || holds(opt_text(conv.project_name), project@)
    &&& args.exclude_deleted_projects && conv.project_path is Some ==> project_exists
    &&& compared_time(conv, args.timestamp_source).0.instant() < cutoff.instant()
    &&& conv.timestamp.instant() < min_age_threshold.instant()
}

fn text_holds(text: &Option<String>, part: &str) -> (r: bool)
    ensures
        r == holds(opt_text(*text), part@),
{
    match text {
        Some(t) => contains(t.as_str(), part),
        None => false,
    }
}

/// Whether a conversation is deleted.
pub fn should_delete(
    conv: &Conversation,
    project_exists: bool,
    args: &PruneArgs,
    cutoff: Timestamp,
    min_age_threshold: Timestamp,
) -> (r: bool)
    requires
        conv.wf(),
        cutoff.wf(),
        min_age_threshold.wf(),
    ensures
        r == is_victim(conv, project_exists, args, cutoff, min_age_threshold),
{
    if let Some(project) = &args.project {
        if !text_holds(&conv.project_path, project.as_str()) && !text_holds(
            &conv.project_name,
            project.as_str(),
        ) {
            return false;
        }
    }
    if args.exclude_deleted_projects && conv.project_path.is_some() && !project_exists {
        return false;
    }
    let (compare_ts, _) = compare_timestamp(conv, args.timestamp_source);
    if compare_ts.rank() >= cutoff.rank() {
        return false;
    }
    // Active-session guard: skip files modified more recently than min-age.
    if conv.timestamp.rank() >= min_age_threshold.rank() {
        return false;
    }
    true
}

/// The indices among the first `n` of the conversations that are deleted.
pub open spec fn victims_among(
    convs: Seq<Conversation>,
    present: Seq<bool>,
    args: &PruneArgs,
    cutoff: Timestamp,
    min_age_threshold: Timestamp,
    n: nat,
) -> Seq<usize>
    decreases n,
{
    if n == 0 {
        Seq::empty()
    } else {
        let rest = victims_among(convs, present, args, cutoff, min_age_threshold, (n - 1) as nat);
        if is_victim(&convs[n - 1], present[n - 1], args, cutoff, min_age_threshold) {
            rest.push((n - 1) as usize)
        } else {
            rest
        }
    }
}

/// The conversations that are deleted, in the order they come in.
pub open spec fn victims_of(
    convs: Seq<Conversation>,
    present: Seq<bool>,
    args: &PruneArgs,
    cutoff: Timestamp,
    min_age_threshold: Timestamp,
) -> Seq<Conversation> {
    rearranged(
        convs,
        victims_among(convs, present, args, cutoff, min_age_threshold, convs.len()),
    )
}

/// The conversations of a provider that are deleted. `present` tells of each whether its
/// project directory is there.
pub fn select_victims(
    convs: Vec<Conversation>,
    present: &[bool],
    args: &PruneArgs,
    cutoff: Timestamp,
    min_age_threshold: Timestamp,
) -> (r: Vec<Conversation>)
    requires
        present@.len() == convs@.len(),
        all_wf(convs@),
        cutoff.wf(),
        min_age_threshold.wf(),
    ensures
        r@ == victims_of(convs@, present@, args, cutoff, min_age_threshold),
        all_wf(r@),
{
    let mut kept: Vec<usize> = Vec::new();
    for i in 0..convs.len()
        invariant
            present@.len() == convs@.len(),
            all_wf(convs@),
            cutoff.wf(),
            min_age_threshold.wf(),
            kept@ == victims_among(convs@, present@, args, cutoff, min_age_threshold, i as nat),
            forall|k: int| 0 <= k < kept@.len() ==> #[trigger] kept@[k] < i,
            kept@.no_duplicates(),
    {
        assert(convs@[i as int].wf());
        if should_delete(&convs[i], present[i], args, cutoff, min_age_threshold) {
            kept.push(i);
        }
    }
    proof {
        assert forall|i: int| 0 <= i < rearranged(convs@, kept@).len() implies (
        #[trigger] rearranged(convs@, kept@)[i]).wf() by {
            assert(convs@[kept@[i] as int].wf());
        }
    }
    rearrange(convs, kept.as_slice())
}

pub(crate) proof fn lemma_victims_among(
    convs: Seq<Conversation>,
    present: Seq<bool>,
    args: &PruneArgs,
    cutoff: Timestamp,
    min_age_threshold: Timestamp,
    n: nat,
)
    requires
        n <= convs.len() <= usize::MAX,
    ensures
        ({
            let v = victims_among(convs, present, args, cutoff, min_age_threshold, n);
            &&& forall|k: int|
                0 <= k < v.len() ==> #[trigger] v[k] < n && is_victim(
                    &convs[v[k] as int],
                    present[v[k] as int],
                    args,
                    cutoff,
                    min_age_threshold,
                )
            &&& forall|i: usize|
                i < n && is_victim(
                    &convs[i as int],
                    present[i as int],
                    args,
                    cutoff,
                    min_age_threshold,
                ) ==> #[trigger] v.contains(i)
        }),
    decreases n,
{
    if n > 0 {
        let m = (n - 1) as nat;
        lemma_victims_among(convs, present, args, cutoff, min_age_threshold, m);
        let rest = victims_among(convs, present, args, cutoff, min_age_threshold, m);
        let v = victims_among(convs, present, args, cutoff, min_age_threshold, n);
        assert forall|i: usize|
            i < n && is_victim(
                &convs[i as int],
                present[i as int],
                args,
                cutoff,
                min_age_threshold,
            ) implies #[trigger] v.contains(i) by {
            if i < m {
                assert(rest.contains(i));
                let k = choose|k: int| 0 <= k < rest.len() && rest[k] == i;
                assert(v[k] == i);
            } else {
                assert(v[rest.len() as int] == i);
            }
        }
    }
}

/// Whatever is deleted is older than the cutoff and was not changed after the threshold.
pub proof fn law_victims_are_old(
    convs: Seq<Conversation>,
    present: Seq<bool>,
    args: &PruneArgs,
    cutoff: Timestamp,
    min_age_threshold: Timestamp,
    i: int,
)
    requires
        convs.len() <= usize::MAX,
        0 <= i < victims_of(convs, present, args, cutoff, min_age_threshold).len(),
    ensures
        ({
            let v = victims_of(convs, present, args, cutoff, min_age_threshold)[i];
            &&& compared_time(&v, args.timestamp_source).0.instant() < cutoff.instant()
            &&& v.timestamp.instant() < min_age_threshold.instant()
            &&& convs.contains(v)
        }),
{
    lemma_victims_among(convs, present, args, cutoff, min_age_threshold, convs.len());
    let kept = victims_among(convs, present, args, cutoff, min_age_threshold, convs.len());
    assert(convs[kept[i] as int] == victims_of(
        convs,
        present,
        args,
        cutoff,
        min_age_threshold,
    )[i]);
}

/// Every conversation that meets the conditions is deleted.
pub proof fn law_no_victim_is_missed(
    convs: Seq<Conversation>,
    present: Seq<bool>,
    args: &PruneArgs,
    cutoff: Timestamp,
    min_age_threshold: Timestamp,
    i: int,
)
    requires
        convs.len() <= usize::MAX,
        0 <= i < convs.len(),
        is_victim(&convs[i], present[i], args, cutoff, min_age_threshold),
    ensures
        victims_of(convs, present, args, cutoff, min_age_threshold).contains(convs[i]),
{
    lemma_victims_among(convs, present, args, cutoff, min_age_threshold, convs.len());
    let kept = victims_among(convs, present, args, cutoff, min_age_threshold, convs.len());
    assert(kept.contains(i as usize));
    let k = choose|k: int| 0 <= k < kept.len() && kept[k] == i as usize;
    assert(victims_of(convs, present, args, cutoff, min_age_threshold)[k] == convs[i]);
}

/// The keys by which conversations are put oldest first.
pub open spec fn age_keys(convs: Seq<Conversation>) -> Seq<i128> {
    convs.map_values(|c: Conversation| c.timestamp.instant() as i128)
}

/// Whether `sorted` is `convs` put oldest first, with equally old ones as they stood.
pub open spec fn is_oldest_first(convs: Seq<Conversation>, sorted: Seq<Conversation>) -> bool {
    exists|o: Seq<usize>| #[trigger] is_order(age_keys(convs), o) && sorted == rearranged(convs, o)
}

/// Puts the oldest conversation first.
pub fn sort_oldest_first(convs: Vec<Conversation>) -> (r: Vec<Conversation>)
    requires
        all_wf(convs@),
    ensures
        is_oldest_first(convs@, r@),
        r@.len() == convs@.len(),
        all_wf(r@),
{
    let mut keys: Vec<i128> = Vec::new();
    for i in 0..convs.len()
        invariant
            all_wf(convs@),
            keys@ == age_keys(convs@).take(i as int),
    {
        assert(convs@[i as int].wf());
        let key: i128 = convs[i].timestamp.rank();
        keys.push(key);
        assert(keys@ =~= age_keys(convs@).take(i + 1));
    }
    assert(keys@ =~= age_keys(convs@));
    let order: Vec<usize> = order_by_key(keys.as_slice());
    proof {
        lemma_order_is_distinct(keys@, order@);
        assert forall|i: int| 0 <= i < rearranged(convs@, order@).len() implies (
        #[trigger] rearranged(convs@, order@)[i]).wf() by {
            assert(convs@[order@[i] as int].wf());
        }
    }
    let r: Vec<Conversation> = rearrange(convs, order.as_slice());
    assert(is_order(age_keys(convs@), order@) && r@ == rearranged(convs@, order@));
    r
}

/// The conversations that a provider loaded.
#[derive(Debug)]
pub struct ProviderBatch {
    pub kind: ProviderKind,
    pub conversations: Vec<Conversation>,
    /// Of each conversation, whether its project directory is there.
    pub present: Vec<bool>,
}

impl ProviderBatch {
    pub open spec fn wf(&self) -> bool {
        self.present@.len() == self.conversations@.len() && all_wf(self.conversations@)
    }
}

/// The conversations of the first `n` batches that are deleted, in the order they come in.
pub open spec fn gathered(
    batches: Seq<ProviderBatch>,
    args: &PruneArgs,
    cutoff: Timestamp,
    min_age_threshold: Timestamp,
    n: nat,
) -> Seq<Conversation>
    decreases n,
{
    if n == 0 {
        Seq::empty()
    } else {
        let before = gathered(batches, args, cutoff, min_age_threshold, (n - 1) as nat);
        let batch = batches[n - 1];
        let filter = match args.provider {
            Some(f) => f,
            None => ProviderFilter::All,
        };
        if filter_admits(filter, batch.kind) {
            before + victims_of(
                batch.conversations@,
                batch.present@,
                args,
                cutoff,
                min_age_threshold,
            )
        } else {
            before
        }
    }
}

/// The conversations that are deleted, of all providers together, oldest first.
pub fn gather_victims(
    batches: Vec<ProviderBatch>,
    args: &PruneArgs,
    cutoff: Timestamp,
    min_age_threshold: Timestamp,
) -> (r: Vec<Conversation>)
    requires
        forall|b: int| 0 <= b < batches@.len() ==> (#[trigger] batches@[b]).wf(),
        cutoff.wf(),
        min_age_threshold.wf(),
    ensures
        is_oldest_first(
            gathered(batches@, args, cutoff, min_age_threshold, batches@.len()),
            r@,
        ),
        all_wf(r@),
{
    let ghost all = batches@;
    let filter: ProviderFilter = provider_filter(args);
    let mut victims: Vec<Conversation> = Vec::new();
    for batch in it: batches
        invariant
            it.seq() == all,
            filter == (match args.provider {
                Some(f) => f,
                None => ProviderFilter::All,
            }),
            forall|b: int| 0 <= b < all.len() ==> (#[trigger] all[b]).wf(),
            cutoff.wf(),
            min_age_threshold.wf(),
            victims@ == gathered(all, args, cutoff, min_age_threshold, it.index() as nat),
            all_wf(victims@),
    {
        assert(all[it.index() as int].wf());
        if provider_matches(batch.kind, filter) {
            let ghost before = victims@;
            let mut more: Vec<Conversation> = select_victims(
                batch.conversations,
                batch.present.as_slice(),
                args,
                cutoff,
                min_age_threshold,
            );
            let ghost added = more@;
            victims.append(&mut more);
            assert(victims@ == before + added);
            assert(all_wf(before + added));
        }
    }
    sort_oldest_first(victims)
}

/// The age below which conversations are left alone, or why there is none.
pub fn parse_min_age(args: &PruneArgs) -> (r: Result<u64, AppError>)
    requires
        unit_is_ascii(args.min_age@),
    ensures
        match r {
            Ok(secs) => duration_secs(args.min_age@) == Some(secs as nat),
            Err(e) => duration_secs(args.min_age@) is None && e@ == AppErrorView::ConfigError(
                "invalid --min-age: "@ + args.min_age@,
            ),
        },
{
    match parse_duration(args.min_age.as_str()) {
        Some(secs) => Ok(secs),
        None => Err(AppError::ConfigError(concat("invalid --min-age: ", args.min_age.as_str()))),
    }
}

/// The span that a minimum age stands for: none where it is longer than can be held.
pub open spec fn min_age_span(secs: nat) -> nat {
    if secs <= MAX_SPAN_SECS {
        secs
    } else {
        0
    }
}

/// The time since which conversations count as changed lately; nothing where it would lie
/// before the calendar begins.
pub fn min_age_threshold(now: Timestamp, min_age: u64) -> (r: Option<Timestamp>)
    requires
        now.wf(),
    ensures
        r is Some <==> can_go_back(now, min_age_span(min_age as nat)),
        r matches Some(t) ==> t.wf() && (t.secs as int, t.nanos as int) == moved_back(
            now,
            min_age_span(min_age as nat),
        ),
{
    let span: u64 = match span_of_seconds(min_age) {
        Ok(span) => span,
        Err(_) => 0,
    };
    checked_sub_seconds(now, span)
}

/// Conversations put oldest first do not stand before older ones.
pub proof fn law_oldest_first_is_sorted(
    convs: Seq<Conversation>,
    sorted: Seq<Conversation>,
    i: int,
    j: int,
)
    requires
        all_wf(convs),
        is_oldest_first(convs, sorted),
        0 <= i < j < sorted.len(),
    ensures
        sorted[i].timestamp.instant() <= sorted[j].timestamp.instant(),
        sorted.len() == convs.len(),
{
    let keys = age_keys(convs);
    let o = choose|o: Seq<usize>| #[trigger] is_order(keys, o) && sorted == rearranged(convs, o);
    assert(comes_before(keys, o[i], o[j]));
    assert(convs[o[i] as int].wf());
    assert(convs[o[j] as int].wf());
}

// What the user is told

/// That there is nothing to delete, given the cutoff as text.
pub open spec fn nothing_message(cutoff: Seq<char>) -> Seq<char> {
    "No conversations to delete (cutoff "@ + cutoff + ")."@
}

/// That there is nothing to delete, given the cutoff as text.
pub fn no_victims_message_from(cutoff: &str) -> (r: String)
    ensures
        r@ == nothing_message(cutoff@),
{
    let mut out: String = concat("No conversations to delete (cutoff ", cutoff);
    out.append(").");
    out
}

/// That there is nothing to delete.
pub fn no_victims_message(cutoff: Timestamp) -> (r: String)
    requires
        cutoff.wf(),
    ensures
        r@ == nothing_message(
            rfc3339_text(cutoff.secs as int, cutoff.nanos as int, cutoff.offset as int),
        ),
{
    no_victims_message_from(to_rfc3339(cutoff).as_str())
}

pub open spec fn source_text(source: TimestampSource) -> Seq<char> {
    match source {
        TimestampSource::Mtime => "by mtime"@,
        TimestampSource::FirstMessage => "by first message"@,
        TimestampSource::LastMessage => "by last message"@,
    }
}

fn source_label(source: TimestampSource) -> (r: &'static str)
    ensures
        r@ == source_text(source),
{
    match source {
        TimestampSource::Mtime => "by mtime",
        TimestampSource::FirstMessage => "by first message",
        TimestampSource::LastMessage => "by last message",
    }
}

/// The line above the list of conversations, given the cutoff as text.
pub open spec fn list_heading(cutoff: Seq<char>, source: TimestampSource) -> Seq<char> {
    "Conversations older than "@ + cutoff + " ("@ + source_text(source) + "):"@
}

/// The line of a conversation in the list, given its time as text.
pub open spec fn victim_line(
    conv: &Conversation,
    tool: &ToolName,
    time: Seq<char>,
    used_mtime: bool,
) -> Seq<char> {
    "  "@ + time + " "@ + padded_right(provider_name(conv.provider, tool), 14) + "  "@ + padded_left(
        decimal(conv.message_count as nat),
        3,
    ) + " msg  "@ + (match conv.project_name {
        Some(n) => n@,
        None => "-"@,
    }) + (if used_mtime {
        " (mtime)"@
    } else {
        ""@
    }) + "  "@ + conv.path@
}

/// The line of a conversation in the list, given its time as text.
pub fn victim_line_from(conv: &Conversation, tool: &ToolName, time: &str, used_mtime: bool) -> (r:
    String)
    ensures
        r@ == victim_line(conv, tool, time@, used_mtime),
{
    let mut out: String = concat("  ", time);
    out.append(" ");
    out.append(pad_right(provider_label(conv.provider, tool), 14).as_str());
    out.append("  ");
    out.append(pad_left(decimal_text(conv.message_count as u64).as_str(), 3).as_str());
    out.append(" msg  ");
    match &conv.project_name {
        Some(n) => {
            out.append(n.as_str());
        },
        None => {
            out.append("-");
        },
    }
    if used_mtime {
        out.append(" (mtime)");
    } else {
        out.append("");
    }
    out.append("  ");
    out.append(conv.path.as_str());
    out
}

/// The list that is shown before anything is deleted, given the cutoff and the compared times
/// as texts.
pub open spec fn victim_list(
    victims: Seq<Conversation>,
    tool: &ToolName,
    source: TimestampSource,
    cutoff: Seq<char>,
    times: Seq<Seq<char>>,
) -> Seq<Seq<char>> {
    seq![list_heading(cutoff, source)] + Seq::new(
        victims.len(),
        |i: int| victim_line(&victims[i], tool, times[i], compared_time(&victims[i], source).1),
    ) + seq!["Total: "@ + decimal(victims.len())]
}

/// The times of conversations that are held against the cutoff, as texts.
pub open spec fn compared_texts(victims: Seq<Conversation>, source: TimestampSource) -> Seq<
    Seq<char>,
> {
    victims.map_values(|c: Conversation| minute_text(compared_time(&c, source).0))
}

/// The list that is shown before anything is deleted.
pub fn list_victims(
    victims: &[Conversation],
    tool: &ToolName,
    source: TimestampSource,
    cutoff: Timestamp,
) -> (r: Vec<String>)
    requires
        all_wf(victims@),
        cutoff.wf(),
    ensures
        texts(r@) == victim_list(
            victims@,
            tool,
            source,
            minute_text(cutoff),
            compared_texts(victims@, source),
        ),
{
    let mut times: Vec<String> = Vec::new();
    let ghost all = compared_texts(victims@, source);
    assert(texts(times@) =~= all.take(0));
    for i in 0..victims.len()
        invariant
            all_wf(victims@),
            all == compared_texts(victims@, source),
            texts(times@) == all.take(i as int),
    {
        assert(victims@[i as int].wf());
        let ghost was = times@;
        times.push(format_minute(compare_timestamp(&victims[i], source).0));
        assert(texts(times@) =~= texts(was).push(all[i as int]));
        assert(texts(times@) =~= all.take(i + 1));
    }
    assert(texts(times@) =~= all);
    assert(times@.len() == texts(times@).len());
    list_victims_from(victims, tool, source, format_minute(cutoff).as_str(), &times)
}

/// The list that is shown before anything is deleted, given the cutoff and the compared times
/// as texts.
pub fn list_victims_from(
    victims: &[Conversation],
    tool: &ToolName,
    source: TimestampSource,
    cutoff: &str,
    times: &Vec<String>,
) -> (r: Vec<String>)
    requires
        times@.len() == victims@.len(),
    ensures
        texts(r@) == victim_list(victims@, tool, source, cutoff@, texts(times@)),
{
    let mut lines: Vec<String> = Vec::new();
    let mut heading: String = concat("Conversations older than ", cutoff);
    heading.append(" (");
    heading.append(source_label(source));
    heading.append("):");
    lines.push(heading);
    let ghost all = victim_list(victims@, tool, source, cutoff@, texts(times@));
    assert(texts(lines@) =~= all.take(1));
    for i in 0..victims.len()
        invariant
            times@.len() == victims@.len(),
            all == victim_list(victims@, tool, source, cutoff@, texts(times@)),
            texts(lines@) == all.take(i + 1),
    {
        let (_, used_mtime): (Timestamp, bool) = compare_timestamp(&victims[i], source);
        let ghost was = lines@;
        lines.push(victim_line_from(&victims[i], tool, times[i].as_str(), used_mtime));
        assert(texts(lines@) =~= texts(was).push(all[i + 1]));
        assert(texts(lines@) =~= all.take(i + 2));
    }
    let ghost was = lines@;
    lines.push(concat("Total: ", decimal_text(victims.len() as u64).as_str()));
    assert(texts(lines@) =~= texts(was).push(all.last()));
    assert(texts(lines@) =~= all);
    lines
}

/// A number of bytes, in the largest unit that is not larger.
pub open spec fn bytes_text(bytes: nat) -> Seq<char> {
    if bytes >= 1_073_741_824 {
        in_units(bytes, 1_073_741_824) + " GiB"@
    } else if bytes >= 1_048_576 {
        in_units(bytes, 1_048_576) + " MiB"@
    } else if bytes >= 1_024 {
        in_units(bytes, 1_024) + " KiB"@
    } else {
        decimal(bytes) + " B"@
    }
}

pub fn format_bytes(bytes: u64) -> (r: String)
    ensures
        r@ == bytes_text(bytes as nat),
{
    if bytes >= 1_073_741_824 {
        concat(units_text(bytes, 1_073_741_824).as_str(), " GiB")
    } else if bytes >= 1_048_576 {
        concat(units_text(bytes, 1_048_576).as_str(), " MiB")
    } else if bytes >= 1_024 {
        concat(units_text(bytes, 1_024).as_str(), " KiB")
    } else {
        concat(decimal_text(bytes).as_str(), " B")
    }
}

/// The sum of the sizes that are known.
pub open spec fn known_total(sizes: Seq<Option<u64>>) -> nat
    decreases sizes.len(),
{
    if sizes.len() == 0 {
        0
    } else {
        known_total(sizes.drop_last()) + (match sizes.last() {
            Some(n) => n as nat,
            None => 0,
        })
    }
}

proof fn lemma_known_total_grows(sizes: Seq<Option<u64>>, i: int)
    requires
        0 <= i <= sizes.len(),
    ensures
        known_total(sizes.take(i)) <= known_total(sizes),
    decreases sizes.len() - i,
{
    if i < sizes.len() {
        lemma_known_total_grows(sizes, i + 1);
        assert(sizes.take(i + 1).drop_last() =~= sizes.take(i));
    } else {
        assert(sizes.take(i) =~= sizes);
    }
}

/// The sum of the file sizes that could be told.
pub fn total_size(sizes: &[Option<u64>]) -> (r: u64)
    requires
        known_total(sizes@) <= u64::MAX,
    ensures
        r == known_total(sizes@),
{
    let mut total: u64 = 0;
    for i in 0..sizes.len()
        invariant
            known_total(sizes@) <= u64::MAX,
            total == known_total(sizes@.take(i as int)),
    {
        proof {
            lemma_known_total_grows(sizes@, i + 1);
            assert(sizes@.take(i + 1).drop_last() =~= sizes@.take(i as int));
        }
        if let Some(n) = sizes[i] {
            total = total + n;
        }
    }
    assert(sizes@.take(sizes@.len() as int) =~= sizes@);
    total
}

/// The question that is asked before anything is deleted.
pub fn confirm_prompt(count: usize, total_bytes: u64) -> (r: String)
    ensures
        r@ == "Delete "@ + decimal(count as nat) + " conversation(s) ("@ + bytes_text(
            total_bytes as nat,
        ) + ")? [y/N] "@,
{
    let mut out: String = concat("Delete ", decimal_text(count as u64).as_str());
    out.append(" conversation(s) (");
    out.append(format_bytes(total_bytes).as_str());
    out.append(")? [y/N] ");
    out
}

/// Whether a text is `y` or `yes`, in upper or lower case, with white space around it.
pub open spec fn says_yes(answer: Seq<char>) -> bool {
    let t = trimmed(answer);
    ||| t.len() == 1 && (t[0] == 'y' || t[0] == 'Y')
    ||| t.len() == 3 && (t[0] == 'y' || t[0] == 'Y') && (t[1] == 'e' || t[1] == 'E') && (t[2] == 's'
        || t[2] == 'S')
}

/// Whether the user agreed to the deletion.
pub fn is_confirmed(answer: &str) -> (r: bool)
    ensures
        r == says_yes(answer@),
{
    let chars: Vec<char> = chars_of(answer);
    let t: Vec<char> = trim_chars(chars.as_slice());
    if t.len() == 1 {
        t[0] == 'y' || t[0] == 'Y'
    } else if t.len() == 3 {
        (t[0] == 'y' || t[0] == 'Y') && (t[1] == 'e' || t[1] == 'E') && (t[2] == 's' || t[2]
            == 'S')
    } else {
        false
    }
}

/// What follows once the conversations to delete are known.
#[derive(Clone, Copy, Debug, PartialEq, Eq, Structural)]
pub enum PruneStep {
    /// There is nothing to delete.
    NothingToDo,
    /// Only show the list.
    DryRun,
    /// Only show the list, and that nothing is deleted without a terminal to ask on.
    RefuseWithoutTerminal,
    /// Ask the user.
    Confirm,
    /// Delete right away.
    Proceed,
}

pub open spec fn prune_step_for(count: nat, args: &PruneArgs, interactive: bool) -> PruneStep {
    if count == 0 {
        PruneStep::NothingToDo
    } else if args.dry_run {
        PruneStep::DryRun
    } else if args.yes {
        PruneStep::Proceed
    } else if interactive {
        PruneStep::Confirm
    } else {
        PruneStep::RefuseWithoutTerminal
    }
}

/// What follows once the conversations to delete are known.
pub fn prune_step(count: usize, args: &PruneArgs, interactive: bool) -> (r: PruneStep)
    ensures
        r == prune_step_for(count as nat, args, interactive),
{
    if count == 0 {
        return PruneStep::NothingToDo;
    }
    let dry_run: bool = args.dry_run || (!args.yes && !interactive);
    if dry_run {
        if !args.dry_run && !interactive {
            return PruneStep::RefuseWithoutTerminal;
        }
        return PruneStep::DryRun;
    }
    if !args.yes {
        PruneStep::Confirm
    } else {
        PruneStep::Proceed
    }
}

/// Nothing is deleted on a dry run, nor without either consent in the arguments or a terminal
/// to ask on.
pub proof fn law_deleting_needs_consent(count: nat, args: &PruneArgs, interactive: bool)
    ensures
        prune_step_for(count, args, interactive) == PruneStep::Proceed ==> args.yes
            && !args.dry_run,
        prune_step_for(count, args, interactive) == PruneStep::Confirm ==> interactive
            && !args.dry_run,
{
}

/// How a conversation is removed.
#[derive(Clone, Copy, Debug, PartialEq, Eq, Structural)]
pub enum RemovalStep {
    /// Not at all: its provider is not there.
    NoProvider,
    /// Its file lies in the trash, so only its rows in the index are deleted.
    DropRow,
    /// Its provider deletes it, together with its rows in the index.
    Delete,
}

/// How a conversation is removed; `trashed` tells whether its file was moved to the trash.
pub fn removal_step(provider_registered: bool, trashed: bool) -> (r: RemovalStep)
    ensures
        r == (if !provider_registered {
            RemovalStep::NoProvider
        } else if trashed {
            RemovalStep::DropRow
        } else {
            RemovalStep::Delete
        }),
{
    if !provider_registered {
        RemovalStep::NoProvider
    } else if trashed {
        RemovalStep::DropRow
    } else {
        RemovalStep::Delete
    }
}

/// Whether a conversation is gone, from disk and from the index: always where it lies in the
/// trash, else where its provider deleted it.
pub open spec fn is_gone(step: RemovalStep, deleted: bool) -> bool {
    match step {
        RemovalStep::NoProvider => false,
        RemovalStep::DropRow => true,
        RemovalStep::Delete => deleted,
    }
}

/// How many deletions succeeded and failed.
#[derive(Clone, Copy, Debug, PartialEq, Eq, Structural)]
pub struct Tally {
    pub deleted: usize,
    pub failed: usize,
}

impl Tally {
    pub fn new() -> (r: Tally)
        ensures
            r.deleted == 0,
            r.failed == 0,
    {
        Tally { deleted: 0, failed: 0 }
    }

    /// Counts one more deletion.
    pub fn record(&mut self, succeeded: bool)
        requires
            old(self).deleted + old(self).failed < usize::MAX,
        ensures
            final(self).deleted == old(self).deleted + (if succeeded {
                1int
            } else {
                0int
            }),
            final(self).failed == old(self).failed + (if succeeded {
                0int
            } else {
                1int
            }),
    {
        if succeeded {
            self.deleted = self.deleted + 1;
        } else {
            self.failed = self.failed + 1;
        }
    }

    /// Counts one more conversation that was to be removed; `deleted` tells whether its provider
    /// deleted it, where that was asked for.
    pub fn finish(&mut self, step: RemovalStep, deleted: bool)
        requires
            old(self).deleted + old(self).failed < usize::MAX,
        ensures
            *final(self) == old(self).finished(step, deleted),
    {
        let gone: bool = match step {
            RemovalStep::NoProvider => false,
            RemovalStep::DropRow => true,
            RemovalStep::Delete => deleted,
        };
        self.record(gone);
    }

    /// The tally after one more conversation.
    pub open spec fn finished(self, step: RemovalStep, deleted: bool) -> Tally {
        if is_gone(step, deleted) {
            Tally { deleted: (self.deleted + 1) as usize, ..self }
        } else {
            Tally { failed: (self.failed + 1) as usize, ..self }
        }
    }

    pub open spec fn summary(self, total: nat) -> Seq<char> {
        "Deleted "@ + decimal(self.deleted as nat) + "/"@ + decimal(total) + " conversation(s)"@ + (
        if self.failed > 0 {
            " ("@ + decimal(self.failed as nat) + " failed)"@
        } else {
            ""@
        }) + "."@
    }

    /// What the user is told when all deletions were tried.
    pub fn summary_text(&self, total: usize) -> (r: String)
        ensures
            r@ == self.summary(total as nat),
    {
        let mut out: String = concat("Deleted ", decimal_text(self.deleted as u64).as_str());
        out.append("/");
        out.append(decimal_text(total as u64).as_str());
        out.append(" conversation(s)");
        if self.failed > 0 {
            let mut failures: String = concat(" (", decimal_text(self.failed as u64).as_str());
            failures.append(" failed)");
            out.append(failures.as_str());
        } else {
            out.append("");
        }
        out.append(".");
        out
    }

    /// How the whole run ends: with an error where every deletion failed.
    pub fn outcome(&self, total: usize) -> (r: Result<(), AppError>)
        ensures
            r is Err <==> self.failed == total,
            r matches Err(e) ==> e@ == AppErrorView::ClaudeExecutionError(
                "All deletions failed"@,
            ),
    {
        if self.failed == total {
            Err(AppError::ClaudeExecutionError("All deletions failed".to_owned()))
        } else {
            Ok(())
        }
    }
}

// The trash directory

/// The trash directory of a run, given the time of the run as text.
pub open spec fn trash_path(home: Seq<char>, stamp: Seq<char>) -> Seq<char> {
    spec_join(
        spec_join(spec_join(spec_join(spec_join(home, ".local"@), "state"@), "mnemonai"@), "trash"@),
        stamp,
    )
}

/// The trash directory of a run, given the time of the run as text.
pub fn trash_dir_from(home: &Option<String>, stamp: &str) -> (r: Result<String, AppError>)
    ensures
        match r {
            Ok(root) => home is Some && root@ == trash_path(home->0@, stamp@),
            Err(e) => home is None && e@ == AppErrorView::ConfigError("HOME not set"@),
        },
{
    match home {
        Some(h) => {
            let local: String = join(h.as_str(), ".local");
            let state: String = join(local.as_str(), "state");
            let own: String = join(state.as_str(), "mnemonai");
            let trash: String = join(own.as_str(), "trash");
            Ok(join(trash.as_str(), stamp))
        },
        None => Err(AppError::ConfigError("HOME not set".to_owned())),
    }
}

/// The trash directory of a run; `home` is the home directory, where it is set.
pub fn trash_dir(home: &Option<String>, now: Timestamp) -> (r: Result<String, AppError>)
    requires
        now.wf(),
    ensures
        match r {
            Ok(root) => home is Some && root@ == trash_path(
                home->0@,
                strftime(now.secs as int, now.nanos as int, now.offset as int, TRASH_PATTERN@),
            ),
            Err(e) => home is None && e@ == AppErrorView::ConfigError("HOME not set"@),
        },
{
    let stamp: String = format_time(now, TRASH_PATTERN);
    trash_dir_from(home, stamp.as_str())
}

/// What is moved where when a conversation goes to the trash.
#[derive(Debug)]
pub enum TrashPlan {
    /// Nothing: the conversation has no file of its own, or the file is gone.
    Skip,
    /// `source` is moved to `dest`, in `directory`.
    Move { directory: String, source: String, dest: String },
}

/// A text with `-` in place of each space.
pub open spec fn dashed(s: Seq<char>) -> Seq<char> {
    s.map_values(
        |c: char|
            if c == ' ' {
                '-'
            } else {
                c
            },
    )
}

fn dash_spaces(s: &str) -> (r: String)
    ensures
        r@ == dashed(s@),
{
    let chars: Vec<char> = chars_of(s);
    let mut out: Vec<char> = Vec::new();
    for i in 0..chars.len()
        invariant
            chars@ == s@,
            out@ == dashed(s@).take(i as int),
    {
        let c: char = chars[i];
        if c == ' ' {
            out.push('-');
        } else {
            out.push(c);
        }
        assert(out@ =~= dashed(s@).take(i + 1));
    }
    assert(out@ =~= dashed(s@));
    string_of(out.as_slice())
}

/// The directory that the conversations of a provider go to.
pub open spec fn trash_directory(root: Seq<char>, kind: ProviderKind, tool: &ToolName) -> Seq<char> {
    spec_join(root, dashed(provider_name(kind, tool)))
}

/// Whether a conversation has a session directory of its own, named after it.
pub open spec fn in_session_dir(conv: &Conversation) -> bool {
    &&& conv.provider == ProviderKind::CursorAgent
    &&& spec_parent(conv.path@) matches Some(dir) && spec_file_name(dir) == Some(conv.id@)
}

/// Whether `plan` says what is moved where.
pub open spec fn is_trash_plan(
    conv: &Conversation,
    tool: &ToolName,
    root: Seq<char>,
    file_exists: bool,
    plan: TrashPlan,
) -> bool {
    let dir = trash_directory(root, conv.provider, tool);
    match plan {
        TrashPlan::Skip => conv.provider == ProviderKind::Cursor || !file_exists,
        TrashPlan::Move { directory, source, dest } => {
            &&& conv.provider != ProviderKind::Cursor && file_exists
            &&& directory@ == dir
            &&& if in_session_dir(conv) {
                source@ == spec_parent(conv.path@)->0 && dest@ == spec_join(dir, conv.id@)
            } else {
                source@ == conv.path@ && dest@ == spec_join(
                    dir,
                    match spec_file_name(conv.path@) {
                        Some(name) => name,
                        None => conv.id@,
                    },
                )
            }
        },
    }
}

/// What is moved where when a conversation goes to the trash.
pub fn plan_trash(conv: &Conversation, tool: &ToolName, root: &str, file_exists: bool) -> (r: TrashPlan)
    ensures
        is_trash_plan(conv, tool, root@, file_exists, r),
{
    if conv.provider == ProviderKind::Cursor {
        // Cursor IDE conversations live in a shared database and are not files of their own.
        return TrashPlan::Skip;
    }
    if !file_exists {
        return TrashPlan::Skip;
    }
    let folder: String = dash_spaces(provider_label(conv.provider, tool));
    let directory: String = join(root, folder.as_str());

    // A cursor-agent conversation may live inside a session directory; the directory is moved
    // where it is named after the conversation.
    if conv.provider == ProviderKind::CursorAgent {
        if let Some(dir) = parent(conv.path.as_str()) {
            if let Some(name) = file_name(dir.as_str()) {
                if same_text(name.as_str(), conv.id.as_str()) {
                    let dest: String = join(directory.as_str(), conv.id.as_str());
                    return TrashPlan::Move { directory, source: dir, dest };
                }
            }
        }
    }
    let filename: String = match file_name(conv.path.as_str()) {
        Some(name) => name,
        None => conv.id.clone(),
    };
    let dest: String = join(directory.as_str(), filename.as_str());
    TrashPlan::Move { directory, source: conv.path.clone(), dest }
}

} // verus!
