//! What holds of the tools that conversations are held with: how a conversation is resumed, what
//! is deleted of it, and which transcripts are read.

use crate::conversation_index::SourceFingerprint;
use crate::error::AppErrorView;
use crate::history::Conversation;
use crate::order::{comes_before, is_order, lemma_order_is_distinct, rearranged};
use crate::paths::{components, is_absolute, path_id, spec_file_name, spec_join, spec_parent};
use crate::path_laws::{
    is_plain_name, law_going_up_from_a_joined_path, law_join_adds_a_component,
    law_name_and_parent_of_a_joined_path, law_stem_and_ending_make_the_name,
};
use crate::providers::claude::{ended_well, resume_command, resume_obstacle};
use crate::providers::cursor_agent::{
    agent_command, chats_beside, first_nested, fresh_among, is_jsonl, is_latest_first,
    latest_among, loaded_conversations, own_dir, project_dir_of, project_keys, transcript_at,
    transcripts_among, workspace_to_resume, AgentCommands, AgentProject, ConversationLoad,
    TranscriptDirEntry,
};
use crate::providers::workspace::DiskView;
use vstd::prelude::*;

verus! {

/// Whichever executable is found, the command resumes the chat in its workspace: its last four
/// arguments name the chat and the workspace, and it runs in the workspace. Without any of the
/// three executables there is no command, and the one that is meant for this comes first.
pub proof fn law_agent_command_resumes_the_chat(
    commands: AgentCommands,
    workspace: Seq<char>,
    chat_id: Seq<char>,
)
    ensures
        agent_command(commands, workspace, chat_id) is Some <==> commands.cursor_agent
            || commands.agent || commands.cursor,
        agent_command(commands, workspace, chat_id) matches Some(command) ==> {
            let n = command.args.len();
            &&& n >= 4
            &&& command.args[n - 4] == "--resume"@
            &&& command.args[n - 3] == chat_id
            &&& command.args[n - 2] == "--workspace"@
            &&& command.args[n - 1] == workspace
            &&& command.args.skip(n - 4) == seq!["--resume"@, chat_id, "--workspace"@, workspace]
            &&& command.current_dir == workspace
            &&& commands.cursor_agent ==> command.program == "cursor-agent"@ && n == 4
            &&& !commands.cursor_agent && commands.agent ==> command.program == "agent"@ && n == 4
            &&& !commands.cursor_agent && !commands.agent ==> command.program == "cursor"@ && n
                == 5 && command.args[0] == "agent"@
        },
{
    match agent_command(commands, workspace, chat_id) {
        Some(command) => {
            assert(command.args.skip(command.args.len() - 4) =~= seq![
                "--resume"@,
                chat_id,
                "--workspace"@,
                workspace,
            ]);
        },
        None => {},
    }
}

/// A session is resumed by its id, in the directory of its project, with the default arguments
/// behind; where the project is not known, or its directory is gone, it is refused, and the
/// refusal names the directory.
pub proof fn law_session_is_resumed_in_its_project(
    program: Seq<char>,
    conv: &Conversation,
    default_args: Seq<Seq<char>>,
    project_is_dir: bool,
)
    ensures
        ({
            let command = resume_command(program, conv, default_args);
            &&& command.program == program
            &&& command.args.len() == default_args.len() + 2
            &&& command.args[0] == "--resume"@
            &&& command.args[1] == conv.id@
            &&& command.args.skip(2) == default_args
            &&& conv.project_path is Some ==> command.current_dir == conv.project_path->0@
        }),
        resume_obstacle(conv, project_is_dir) is None <==> conv.project_path is Some
            && project_is_dir,
        conv.project_path is Some && !project_is_dir ==> resume_obstacle(conv, project_is_dir)
            == Some(
            AppErrorView::ClaudeExecutionError(
                "Project directory no longer exists: "@ + conv.project_path->0@,
            ),
        ),
{
    assert(resume_command(program, conv, default_args).args.skip(2) =~= default_args);
}

/// A session that succeeded, or that the user interrupted, ended well, and no other did.
pub proof fn law_only_failures_are_told(success: bool, code: Option<i32>, signal: Option<i32>)
    ensures
        success ==> ended_well(success, code, signal),
        code == Some(130i32) ==> ended_well(success, code, signal),
        signal == Some(2i32) ==> ended_well(success, code, signal),
        !success && code != Some(130i32) && signal != Some(2i32) ==> !ended_well(
            success,
            code,
            signal,
        ),
{
}

/// A conversation is resumed in the directory of its project, or without one its working
/// directory, wherever that is there. Only where it is not, the name of the transcript's project
/// directory is asked, and what is found then exists.
pub proof fn law_conversation_is_resumed_where_it_was_held(
    disk: DiskView,
    conv: &Conversation,
    chats: Option<Seq<char>>,
)
    ensures
        conv.project_path is Some && (disk.is_dir)(conv.project_path->0@) ==> workspace_to_resume(
            disk,
            conv,
            chats,
        ) == Ok::<Seq<char>, AppErrorView>(conv.project_path->0@),
        conv.project_path is None && conv.cwd is Some && (disk.is_dir)(conv.cwd->0@)
            ==> workspace_to_resume(disk, conv, chats) == Ok::<Seq<char>, AppErrorView>(
            conv.cwd->0@,
        ),
        workspace_to_resume(disk, conv, chats) matches Ok(path) ==> (disk.is_dir)(path) || (
        disk.exists)(path),
{
    match project_dir_of(conv.path@) {
        Some(name) => {
            crate::providers::workspace::law_workspace_exists(disk, name, chats);
        },
        None => {},
    }
}

/// A directory is only deleted with a conversation where it holds the transcript, is named after
/// the conversation, and lies in a directory of transcripts; and then it is.
pub proof fn law_only_own_directories_are_deleted(path: Seq<char>, id: Seq<char>, dir: Seq<char>)
    ensures
        own_dir(path, id) == Some(dir) <==> {
            &&& spec_parent(path) == Some(dir)
            &&& spec_file_name(dir) == Some(id)
            &&& spec_parent(dir) is Some
            &&& spec_file_name(spec_parent(dir)->0) == Some("agent-transcripts"@)
        },
{
}

proof fn lemma_first_nested(nested: Seq<(String, bool)>, from: nat)
    requires
        from <= nested.len(),
    ensures
        match first_nested(nested, from) {
            Some(p) => exists|k: int|
                from <= k < nested.len() && (#[trigger] nested[k]).0@ == p && nested[k].1
                    && is_jsonl(p) && forall|j: int|
                    from <= j < k ==> !((#[trigger] nested[j]).1 && is_jsonl(nested[j].0@)),
            None => forall|j: int|
                from <= j < nested.len() ==> !((#[trigger] nested[j]).1 && is_jsonl(
                    nested[j].0@,
                )),
        },
    decreases nested.len() - from,
{
    if from < nested.len() {
        if nested[from as int].1 && is_jsonl(nested[from as int].0@) {
            assert(nested[from as int].0@ == first_nested(nested, from)->0);
        } else {
            lemma_first_nested(nested, from + 1);
            match first_nested(nested, from + 1) {
                Some(p) => {
                    let k = choose|k: int|
                        from + 1 <= k < nested.len() && (#[trigger] nested[k]).0@ == p
                            && nested[k].1 && is_jsonl(p) && forall|j: int|
                            from + 1 <= j < k ==> !((#[trigger] nested[j]).1 && is_jsonl(
                                nested[j].0@,
                            ));
                    assert(nested[k].0@ == p);
                },
                None => {},
            }
        }
    }
}

/// Which transcript an entry of a directory of transcripts stands for: a transcript file stands
/// for itself; a directory for the file in it that is named after it where there is one, else for
/// the first transcript in it; anything else for none.
pub proof fn law_entries_stand_for_transcripts(entry: TranscriptDirEntry)
    ensures
        entry.is_file && is_jsonl(entry.path@) ==> transcript_at(entry) == Some(entry.path@),
        !(entry.is_file && is_jsonl(entry.path@)) && !entry.is_dir ==> transcript_at(entry)
            is None,
        !entry.is_file && entry.is_dir && entry.default_is_file ==> transcript_at(entry) == Some(
            spec_join(entry.path@, entry.name@ + ".jsonl"@),
        ),
        !entry.is_file && entry.is_dir && !entry.default_is_file ==> match transcript_at(entry) {
            Some(p) => exists|k: int|
                0 <= k < entry.nested@.len() && (#[trigger] entry.nested@[k]).0@ == p
                    && entry.nested@[k].1 && is_jsonl(p) && forall|j: int|
                    0 <= j < k ==> !((#[trigger] entry.nested@[j]).1 && is_jsonl(
                        entry.nested@[j].0@,
                    )),
            None => forall|j: int|
                0 <= j < entry.nested@.len() ==> !((#[trigger] entry.nested@[j]).1 && is_jsonl(
                    entry.nested@[j].0@,
                )),
        },
{
    lemma_first_nested(entry.nested@, 0);
}

/// The transcripts of a directory are those that its entries stand for, one for each entry that
/// stands for any, in order.
pub proof fn law_every_transcript_is_collected(entries: Seq<TranscriptDirEntry>, n: nat)
    requires
        n < entries.len(),
    ensures
        transcript_at(entries[n as int]) matches Some(p) ==> transcripts_among(entries, n + 1)
            == transcripts_among(entries, n).push(p),
        transcript_at(entries[n as int]) is None ==> transcripts_among(entries, n + 1)
            == transcripts_among(entries, n),
        transcripts_among(entries, 0).len() == 0,
{
}

/// Files put latest first are the same files, each once; none stands before a later one, and of
/// equally late ones the last stands first.
pub proof fn law_latest_file_comes_first(files: Seq<String>, times: Seq<i128>, order: Seq<usize>)
    requires
        times.len() == files.len(),
        is_latest_first(times, order),
    ensures
        order.len() == files.len(),
        order.no_duplicates(),
        forall|i: int| 0 <= i < order.len() ==> (#[trigger] order[i]) < files.len(),
        rearranged(files, order).len() == files.len(),
        forall|i: int|
            0 <= i < order.len() ==> #[trigger] rearranged(files, order)[i]
                == files[order[i] as int],
        forall|i: int, j: int|
            0 <= i < j < order.len() ==> {
                ||| times[#[trigger] order[i] as int] > times[#[trigger] order[j] as int]
                ||| times[order[i] as int] == times[order[j] as int] && order[i] > order[j]
            },
{
    let r = order.reverse();
    lemma_order_is_distinct(times, r);
    assert forall|i: int| 0 <= i < order.len() implies (#[trigger] order[i]) < files.len() by {
        assert(order[i] == r[order.len() - 1 - i]);
    }
    assert forall|i: int, j: int| 0 <= i < order.len() && 0 <= j < order.len() && i
        != j implies order[i] != order[j] by {
        assert(order[i] == r[order.len() - 1 - i]);
        assert(order[j] == r[order.len() - 1 - j]);
    }
    assert forall|i: int, j: int| 0 <= i < j < order.len() implies {
        ||| times[#[trigger] order[i] as int] > times[#[trigger] order[j] as int]
        ||| times[order[i] as int] == times[order[j] as int] && order[i] > order[j]
    } by {
        assert(order[i] == r[order.len() - 1 - i]);
        assert(order[j] == r[order.len() - 1 - j]);
        assert(comes_before(times, r[order.len() - 1 - j], r[order.len() - 1 - i]));
    }
}

/// Projects put latest first are the same projects, each once; none stands before a later one,
/// and equally late ones stand as they stood.
pub proof fn law_latest_project_comes_first(projects: Seq<AgentProject>, order: Seq<usize>)
    requires
        is_order(project_keys(projects), order),
        forall|i: int| 0 <= i < projects.len() ==> (#[trigger] projects[i]).modified > i128::MIN,
    ensures
        order.len() == projects.len(),
        order.no_duplicates(),
        forall|i: int, j: int|
            0 <= i < j < order.len() ==> {
                ||| projects[#[trigger] order[i] as int].modified > projects[#[trigger] order[j]
                    as int].modified
                ||| projects[order[i] as int].modified == projects[order[j] as int].modified
                    && order[i] < order[j]
            },
{
    let keys = project_keys(projects);
    lemma_order_is_distinct(keys, order);
    assert forall|i: int, j: int| 0 <= i < j < order.len() implies {
        ||| projects[#[trigger] order[i] as int].modified > projects[#[trigger] order[j]
            as int].modified
        ||| projects[order[i] as int].modified == projects[order[j] as int].modified && order[i]
            < order[j]
    } by {
        assert(comes_before(keys, order[i], order[j]));
        assert(projects[order[i] as int].modified > i128::MIN);
        assert(projects[order[j] as int].modified > i128::MIN);
        assert(keys[order[i] as int] == -projects[order[i] as int].modified);
        assert(keys[order[j] as int] == -projects[order[j] as int].modified);
    }
}

/// A project was changed when the latest of its transcripts was: at the largest of the times that
/// are known.
pub proof fn law_latest_time_is_the_largest(times: Seq<Option<i128>>, n: nat)
    requires
        n <= times.len(),
    ensures
        latest_among(times, n) is None <==> forall|i: int|
            0 <= i < n ==> (#[trigger] times[i]) is None,
        latest_among(times, n) matches Some(t) ==> {
            &&& exists|i: int| 0 <= i < n && #[trigger] times[i] == Some(t)
            &&& forall|i: int| 0 <= i < n && (#[trigger] times[i]) is Some ==> times[i]->0 <= t
        },
    decreases n,
{
    if n > 0 {
        law_latest_time_is_the_largest(times, (n - 1) as nat);
        let last = times[n - 1];
        match latest_among(times, (n - 1) as nat) {
            Some(a) => {
                let k = choose|i: int| 0 <= i < n - 1 && #[trigger] times[i] == Some(a);
                assert(times[k] == Some(a));
            },
            None => {},
        }
    }
}

/// What is to be kept in the index is what was read from a transcript together with its
/// fingerprint, in order, and nothing that came from the index.
pub proof fn law_fresh_loads_are_kept(loads: Seq<ConversationLoad>, n: nat)
    requires
        n < loads.len(),
    ensures
        loads[n as int] matches ConversationLoad::Fresh(c, f) ==> fresh_among(loads, n + 1)
            == fresh_among(loads, n).push((c@, f)),
        loads[n as int] is Cached ==> fresh_among(loads, n + 1) == fresh_among(loads, n),
        fresh_among(loads, 0).len() == 0,
{
}

/// A transcript at its usual place, in a directory named after the chat inside the directory of
/// transcripts of a project: its project is told by its path, and the directory of the chat is
/// its own; a transcript that lies in the directory of transcripts itself has no directory of its
/// own.
pub proof fn law_transcripts_tell_their_project(
    projects: Seq<char>,
    project: Seq<char>,
    chat: Seq<char>,
    file: Seq<char>,
)
    requires
        projects.len() > 0,
        is_plain_name(project),
        is_plain_name(chat),
        is_plain_name(file),
        chat != "agent-transcripts"@,
        file != "agent-transcripts"@,
    ensures
        ({
            let home = spec_join(projects, project);
            let all = spec_join(home, "agent-transcripts"@);
            let own = spec_join(all, chat);
            let path = spec_join(own, file);
            &&& project_dir_of(path) == Some(project)
            &&& project_dir_of(own) == Some(project)
            &&& own_dir(path, chat) == Some(own)
            &&& own_dir(own, chat) is None
            &&& file != chat ==> own_dir(path, file) is None
        }),
{
    let name = "agent-transcripts"@;
    reveal_strlit("agent-transcripts");
    assert(is_plain_name(name)) by {
        assert(name.len() == 17);
        assert(!name.contains('/'));
    }
    let home = spec_join(projects, project);
    let all = spec_join(home, name);
    let own = spec_join(all, chat);
    let path = spec_join(own, file);
    law_going_up_from_a_joined_path(projects, project, name);
    law_going_up_from_a_joined_path(home, name, chat);
    law_going_up_from_a_joined_path(all, chat, file);
    assert(project_dir_of(all) == spec_file_name(home));
    assert(project_dir_of(own) == project_dir_of(all));
    assert(project_dir_of(path) == project_dir_of(own));
}

/// A file is a transcript by its ending.
pub proof fn law_transcripts_are_told_by_their_ending(
    dir: Seq<char>,
    stem: Seq<char>,
    ending: Seq<char>,
)
    requires
        dir.len() > 0,
        stem.len() > 0,
        !stem.contains('/'),
        !ending.contains('/'),
        !ending.contains('.'),
        is_plain_name(stem.push('.') + ending),
    ensures
        is_jsonl(spec_join(dir, stem.push('.') + ending)) <==> ending == "jsonl"@,
{
    law_stem_and_ending_make_the_name(dir, stem, ending);
}

/// Chats lie beside the projects.
pub proof fn law_chats_lie_beside_the_projects(dir: Seq<char>, name: Seq<char>)
    requires
        dir.len() > 0,
        is_plain_name(name),
    ensures
        chats_beside(spec_join(dir, name)) is Some,
        components(chats_beside(spec_join(dir, name))->0) == components(dir).push("chats"@),
{
    reveal_strlit("chats");
    law_name_and_parent_of_a_joined_path(dir, name);
    let above = spec_parent(spec_join(dir, name))->0;
    assert(components(above) == components(dir));
    assert(is_plain_name("chats"@)) by {
        assert("chats"@.len() == 5);
    }
    lemma_same_path_is_no_empty_text(dir, above);
    law_join_adds_a_component(above, "chats"@);
}

proof fn lemma_same_path_is_no_empty_text(dir: Seq<char>, above: Seq<char>)
    requires
        dir.len() > 0,
        path_id(above) == path_id(dir),
    ensures
        above.len() > 0,
{
    if above.len() == 0 {
        assert(!is_absolute(dir));
        crate::paths::lemma_run_end(dir, 0);
        let e = crate::paths::run_end(dir, 0);
        assert(crate::paths::is_component(dir, 0, e));
        assert(crate::paths::spans(dir).len() > 0);
        assert(components(above).len() == 0);
    }
}

/// The conversations of a project are those that were loaded, from the index or afresh.
pub proof fn law_loaded_conversations_are_all_there(
    loads: Seq<ConversationLoad>,
    i: int,
    c: Conversation,
    f: SourceFingerprint,
)
    requires
        0 <= i < loads.len(),
    ensures
        loaded_conversations(loads).len() == loads.len(),
        loads[i] == ConversationLoad::Cached(c) ==> loaded_conversations(loads)[i] == c,
        loads[i] == ConversationLoad::Fresh(c, f) ==> loaded_conversations(loads)[i] == c,
{
}

/// Where a conversation cannot be resumed, it is told whether its project or its workspace is not
/// known: a known workspace that is gone is looked for by the name of the project's directory.
pub proof fn law_unknown_workspaces_are_told(
    disk: DiskView,
    conv: &Conversation,
    chats: Option<Seq<char>>,
)
    requires
        conv.project_path is Some ==> !(disk.is_dir)(conv.project_path->0@),
        conv.project_path is None && conv.cwd is Some ==> !(disk.is_dir)(conv.cwd->0@),
    ensures
        ({
            let found = workspace_to_resume(disk, conv, chats);
            let name = project_dir_of(conv.path@);
            let workspace = crate::providers::workspace::workspace_of(disk, name->0, chats);
            &&& name is None ==> found == Err::<Seq<char>, AppErrorView>(
                AppErrorView::ClaudeExecutionError(
                    "Cannot determine project directory for this Cursor Agent conversation"@,
                ),
            )
            &&& name is Some && workspace is None ==> found == Err::<Seq<char>, AppErrorView>(
                AppErrorView::ClaudeExecutionError(
                    "Cannot determine workspace path for this Cursor Agent conversation"@,
                ),
            )
            &&& name is Some && workspace is Some ==> found == Ok::<Seq<char>, AppErrorView>(
                workspace->0,
            )
        }),
{
}

} // verus!
