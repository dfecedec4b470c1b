//! What clients are told, by the answers that a piece of work was given.
use crate::check::{check_after, check_next, CheckStageView, CheckStepView, CheckView};
use crate::clock::backup_file_name;
use crate::command::{
    check_command, law_check_names_the_config, law_command_lines_have_the_words_of_a_shell,
    law_first_word_is_the_program, shell_join, shell_split, CommandResponseView,
};
use crate::config::AppConfigView;
use crate::directory::list_after;
use crate::download::{
    download_after, download_next, DownloadSrsResponseView, DownloadStage, DownloadStepView,
    DownloadView,
};
use crate::download_url::{srs_source, UrlView};
use crate::error::{status_text, ApiErrorView};
use crate::guarantees::{restore_after, snapshot_after, update_after};
use crate::io::{ActionView, CommandOutputView, EventView, IoFailureView, Step};
use crate::listing::{
    is_entry_of, law_files_are_told_as_they_are, FileEntryView, ListFilesView, ListKind, ListStage,
};
use crate::names::{backup_name, law_backup_names_are_plain};
use crate::path::{join, parent};
use crate::restore::{restore_next, RestoreBackupResponseView, RestoreStageView, RestoreView};
use crate::service::{service_next, service_start};
use crate::snapshot::{snapshot_next, Snapshot};
use crate::update::{update_next, UpdateStepView, UpdateView};
use crate::utf8::lossy_text;
use crate::world::{after, is_failure};
use vstd::prelude::*;
use vstd::utf8::encode_utf8;

verus! {

/// Whether an answer is of the sort that an operation has.
pub open spec fn is_answer_to(action: ActionView, event: EventView) -> bool {
    match action {
        ActionView::CheckExists { path } => event is Found,
        ActionView::CreateDirs { path } => event is Done,
        ActionView::ReadClock => event is Time,
        ActionView::CopyFile { from, to } => event is Done,
        ActionView::ReadFile { path } => event is Contents,
        ActionView::WriteFile { path, contents } => event is Done,
        ActionView::RemoveFile { path } => event is Done,
        ActionView::ReadMetadata { path } => event is Metadata,
        ActionView::OpenDir { path } => event is Done,
        ActionView::NextEntry => event is Entry,
        ActionView::CheckIsFile { path } => event is Found,
        ActionView::RunProgram { program, args } => event is Output,
        ActionView::Fetch { url } => event is Status,
        ActionView::ReadBody => event is Contents,
    }
}

/// Whether an answer tells that something was done.
pub open spec fn is_done(event: EventView) -> bool {
    event is Done && event->Done_0 is Ok
}

/// Whether an answer tells that something exists, or that it does not.
pub open spec fn is_told(event: EventView, found: bool) -> bool {
    event is Found && event->Found_0 is Ok && event->Found_0->Ok_0 == found
}

/// The failure that an answer tells of.
pub open spec fn failure_of(event: EventView) -> IoFailureView {
    match event {
        EventView::Found(r) => r->Err_0,
        EventView::Done(r) => r->Err_0,
        EventView::Time(_) => arbitrary(),
        EventView::Contents(r) => r->Err_0,
        EventView::Metadata(r) => r->Err_0,
        EventView::Entry(r) => r->Err_0,
        EventView::Output(r) => r->Err_0,
        EventView::Status(r) => r->Err_0,
    }
}

/// The path that an operation is about: the one that it reads or writes.
pub open spec fn subject_of(action: ActionView) -> Seq<u8> {
    match action {
        ActionView::CheckExists { path } => path,
        ActionView::CreateDirs { path } => path,
        ActionView::CopyFile { from, to } => to,
        ActionView::ReadFile { path } => path,
        ActionView::WriteFile { path, contents } => path,
        ActionView::RemoveFile { path } => path,
        ActionView::ReadMetadata { path } => path,
        ActionView::OpenDir { path } => path,
        ActionView::CheckIsFile { path } => path,
        _ => arbitrary(),
    }
}

/// Whether an error is one of the server that tells what failed, on what, and why.
pub open spec fn is_report_on(
    error: ApiErrorView,
    what: Seq<char>,
    subject: Seq<char>,
    failure: IoFailureView,
) -> bool {
    &&& error.status == 500
    &&& error.message == what + subject + ": "@ + failure.message
}

/// Whether a step ends the work with a report that `action` failed, which is told as `what`.
pub open spec fn is_reported<S, R>(
    step: Step<ActionView, S, R, ApiErrorView>,
    what: Seq<char>,
    action: ActionView,
    event: EventView,
) -> bool {
    step matches Step::Fail { error } && is_report_on(
        error,
        what,
        lossy_text(subject_of(action)),
        failure_of(event),
    )
}

/// Whether a step ends the work because the answer does not belong to the operation.
pub open spec fn is_refused<S, R>(step: Step<ActionView, S, R, ApiErrorView>) -> bool {
    step matches Step::Fail { error } && error.status == 500 && error.message
        == "unexpected answer"@
}

/// How the failure of an operation is told while a backup is being made.
pub open spec fn failed_backup(action: ActionView) -> Seq<char> {
    match action {
        ActionView::CheckExists { path } => "failed to check config presence "@,
        ActionView::CreateDirs { path } => "failed to create backups directory "@,
        ActionView::CopyFile { from, to } => "failed to create backup "@,
        ActionView::ReadMetadata { path } => "failed to read metadata for "@,
        _ => arbitrary(),
    }
}

/// How the failure of an operation is told during an update that was given `count` answers.
pub open spec fn failed_update(count: nat, action: ActionView) -> Seq<char> {
    match action {
        ActionView::CreateDirs { path } if count == 0 => "failed to create config directory "@,
        ActionView::WriteFile { path, contents } => "failed to write sing-box config "@,
        _ => failed_backup(action),
    }
}

/// How the failure of an operation is told during a restore from `kept` that was given `count`
/// answers.
pub open spec fn failed_restore(kept: Seq<u8>, count: nat, action: ActionView) -> Seq<char> {
    match action {
        ActionView::CheckExists { path } if count == 0 => "failed to check backup presence "@,
        ActionView::CheckExists { path } if count == 1 =>
            "failed to check current config presence "@,
        ActionView::CreateDirs { path } if count != 3 => "failed to create config directory "@,
        ActionView::ReadFile { path } => "failed to read backup "@,
        ActionView::WriteFile { path, contents } => "failed to restore backup "@ + lossy_text(kept)
            + " to "@,
        _ => failed_backup(action),
    }
}

/// How the failure of an operation is told during a download.
pub open spec fn failed_download(action: ActionView) -> Seq<char> {
    match action {
        ActionView::Fetch { url } => "failed to download srs file from "@,
        ActionView::ReadBody => "failed to read downloaded srs content from "@,
        ActionView::CreateDirs { path } => "failed to create srs directory "@,
        ActionView::WriteFile { path, contents } => "failed to store downloaded srs file "@,
        ActionView::ReadMetadata { path } => "failed to read metadata for "@,
        _ => arbitrary(),
    }
}

/// How the failure of an operation is told while a list is being made.
pub open spec fn failed_list(kind: ListKind, action: ActionView) -> Seq<char> {
    match (kind, action) {
        (ListKind::Backups, ActionView::CheckExists { path }) =>
            "failed to check backups directory "@,
        (ListKind::Backups, ActionView::OpenDir { path }) => "failed to read backups directory "@,
        (ListKind::Backups, ActionView::NextEntry) => "failed to iterate backups directory "@,
        (ListKind::Backups, ActionView::CheckIsFile { path }) => "failed to inspect backup entry "@,
        (ListKind::Srs, ActionView::CheckExists { path }) => "failed to check srs directory "@,
        (ListKind::Srs, ActionView::OpenDir { path }) => "failed to read srs directory "@,
        (ListKind::Srs, ActionView::NextEntry) => "failed to iterate srs directory "@,
        (ListKind::Srs, ActionView::CheckIsFile { path }) => "failed to inspect srs entry "@,
        (_, ActionView::ReadMetadata { path }) => "failed to read metadata for "@,
        _ => arbitrary(),
    }
}

/// Where a backup of the time `told` goes.
pub open spec fn place_of(settings: AppConfigView, told: EventView) -> Seq<u8> {
    join(settings.backups_dir, encode_utf8(backup_file_name(told->Time_0)))
}

/// Whether the five answers from `at` on are those to a backup of which `entry` tells: there was a
/// configuration, the directory was created, the clock was read, the configuration was copied, and
/// something was told of the copy, which is what `entry` tells.
pub open spec fn is_told_backup(
    settings: AppConfigView,
    told: Seq<EventView>,
    at: int,
    entry: FileEntryView,
) -> bool {
    &&& 0 <= at
    &&& at + 5 <= told.len()
    &&& is_told(told[at], true)
    &&& is_done(told[at + 1])
    &&& told[at + 2] is Time
    &&& is_done(told[at + 3])
    &&& told[at + 4] is Metadata
    &&& told[at + 4]->Metadata_0 is Ok
    &&& is_entry_of(
        entry,
        place_of(settings, told[at + 2]),
        told[at + 4]->Metadata_0->Ok_0,
    )
}

/// What a backup was told since the answer at `at`, and what it asks for.
spec fn snapshot_told(
    settings: AppConfigView,
    told: Seq<EventView>,
    at: int,
    action: ActionView,
    state: Snapshot<Seq<u8>>,
) -> bool {
    let config = settings.sing_box_config_path;
    &&& 0 <= at
    &&& told.len() > at ==> is_told(told[at], true)
    &&& told.len() > at + 1 ==> is_done(told[at + 1])
    &&& told.len() > at + 2 ==> told[at + 2] is Time
    &&& told.len() > at + 3 ==> is_done(told[at + 3])
    &&& match state {
        Snapshot::CheckingConfig => {
            &&& told.len() == at
            &&& action == (ActionView::CheckExists { path: config })
        },
        Snapshot::CreatingDir => {
            &&& told.len() == at + 1
            &&& action == (ActionView::CreateDirs { path: settings.backups_dir })
        },
        Snapshot::ReadingClock => {
            &&& told.len() == at + 2
            &&& action == ActionView::ReadClock
        },
        Snapshot::Copying { to } => {
            &&& told.len() == at + 3
            &&& to == place_of(settings, told[at + 2])
            &&& action == (ActionView::CopyFile { from: config, to })
        },
        Snapshot::ReadingMetadata { of } => {
            &&& told.len() == at + 4
            &&& of == place_of(settings, told[at + 2])
            &&& action == (ActionView::ReadMetadata { path: of })
        },
    }
}

/// What follows an answer to a backup.
proof fn lemma_snapshot_told_step(
    settings: AppConfigView,
    told: Seq<EventView>,
    at: int,
    action: ActionView,
    state: Snapshot<Seq<u8>>,
    event: EventView,
)
    requires
        snapshot_told(settings, told, at, action, state),
    ensures
        ({
            let more = told.push(event);
            match snapshot_next(settings, state, event) {
                Step::Perform { action: asked, state: next } => snapshot_told(
                    settings,
                    more,
                    at,
                    asked,
                    next,
                ),
                Step::Finish { response } => more.len() == at + 5 && is_told_backup(
                    settings,
                    more,
                    at,
                    response,
                ),
                Step::Fail { error } => true,
            }
        }),
        is_failure(event) && is_answer_to(action, event) ==> is_reported(
            snapshot_next(settings, state, event),
            failed_backup(action),
            action,
            event,
        ),
        !is_answer_to(action, event) ==> is_refused(snapshot_next(settings, state, event)),
        state is CheckingConfig && event == EventView::Found(Ok(false)) ==> {
            let step = snapshot_next(settings, state, event);
            &&& step is Fail
            &&& step->error.status == 404
            &&& step->error.message == "sing-box config not found: "@ + lossy_text(
                settings.sing_box_config_path,
            )
        },
{
    let more = told.push(event);
    let n = told.len() as int;
    assert(more[n] == event);
    assert(forall|i: int| 0 <= i < n ==> more[i] == told[i]);
    if let Snapshot::ReadingMetadata { of } = state {
        if let EventView::Metadata(Ok(metadata)) = event {
            law_files_are_told_as_they_are(ListKind::Backups, of, metadata);
        }
    }
}

/// What holds of the answers to a backup, up to the one that ends it.
proof fn lemma_snapshot_told(settings: AppConfigView, told: Seq<EventView>)
    requires
        told.len() > 0 ==> snapshot_after(settings, told.drop_last()) is Perform,
    ensures
        match snapshot_after(settings, told) {
            Step::Perform { action, state } => snapshot_told(settings, told, 0, action, state),
            Step::Finish { response } => told.len() == 5 && is_told_backup(
                settings,
                told,
                0,
                response,
            ),
            Step::Fail { error } => true,
        },
    decreases told.len(),
{
    if told.len() > 0 {
        let front = told.drop_last();
        lemma_snapshot_told(settings, front);
        assert(front.push(told.last()) =~= told);
        if let Step::Perform { action, state } = snapshot_after(settings, front) {
            lemma_snapshot_told_step(settings, front, 0, action, state, told.last());
        }
    }
}

/// A backup that succeeds is told of by its name, which bears the time that the clock read, its
/// path, and the length and the time that were told of the copy.
pub proof fn law_backup_is_told_as_it_is(settings: AppConfigView, events: Seq<EventView>)
    requires
        events.len() > 0,
        snapshot_after(settings, events.drop_last()) is Perform,
        snapshot_after(settings, events) is Finish,
    ensures
        events.len() == 5,
        is_told_backup(settings, events, 0, snapshot_after(settings, events)->response),
{
    lemma_snapshot_told(settings, events);
}

/// Each failure during a backup ends it with a report that names the path and the reason.
pub proof fn law_backup_reports_failures(
    settings: AppConfigView,
    events: Seq<EventView>,
    event: EventView,
)
    requires
        snapshot_after(settings, events) is Perform,
        is_failure(event),
        is_answer_to(snapshot_after(settings, events)->action, event),
    ensures
        is_reported(
            snapshot_after(settings, events.push(event)),
            failed_backup(snapshot_after(settings, events)->action),
            snapshot_after(settings, events)->action,
            event,
        ),
{
    lemma_snapshot_performs_before(settings, events);
    lemma_snapshot_told(settings, events);
    let step = snapshot_after(settings, events);
    lemma_snapshot_told_step(settings, events, 0, step->action, step->state, event);
    assert(events.push(event).drop_last() =~= events);
}

/// Work that goes on went on before.
proof fn lemma_snapshot_performs_before(settings: AppConfigView, events: Seq<EventView>)
    requires
        snapshot_after(settings, events) is Perform,
    ensures
        events.len() > 0 ==> snapshot_after(settings, events.drop_last()) is Perform,
{
}

/// How many answers come before the backup of an update.
pub open spec fn before_backup(settings: AppConfigView) -> int {
    if parent(settings.sing_box_config_path) is Some {
        2
    } else {
        1
    }
}

/// What an update was told, and what it asks for.
spec fn update_told(
    settings: AppConfigView,
    contents: Result<Seq<u8>, ApiErrorView>,
    told: Seq<EventView>,
    action: ActionView,
    state: UpdateView,
) -> bool {
    let config = settings.sing_box_config_path;
    let at = before_backup(settings);
    match state {
        UpdateView::CreatingDir { dir } => {
            &&& told.len() == 0
            &&& parent(config) == Some(dir)
            &&& action == (ActionView::CreateDirs { path: dir })
        },
        UpdateView::CheckingConfig => {
            &&& told.len() == at - 1
            &&& action == (ActionView::CheckExists { path: config })
        },
        UpdateView::BackingUp { snapshot } => {
            &&& told.len() >= at
            &&& is_told(told[at - 1], true)
            &&& snapshot_told(settings, told, at, action, snapshot)
        },
        UpdateView::Writing { backup } => {
            &&& contents is Ok
            &&& action == (ActionView::WriteFile { path: config, contents: contents->Ok_0 })
            &&& match backup {
                Some(entry) => {
                    &&& told.len() == at + 5
                    &&& is_told(told[at - 1], true)
                    &&& is_told_backup(settings, told, at, entry)
                },
                None => told.len() == at && is_told(told[at - 1], false),
            }
        },
    }
}

/// Whether `response` is the answer to an update that was told `told`: it names the configuration,
/// and the backup if there was a configuration to back up.
pub open spec fn is_update_answer(
    settings: AppConfigView,
    told: Seq<EventView>,
    path: Seq<char>,
    backup: Option<FileEntryView>,
) -> bool {
    let at = before_backup(settings);
    &&& path == lossy_text(settings.sing_box_config_path)
    &&& told.len() > at
    &&& is_done(told.last())
    &&& match backup {
        Some(entry) => {
            &&& told.len() == at + 6
            &&& is_told(told[at - 1], true)
            &&& is_told_backup(settings, told, at, entry)
        },
        None => told.len() == at + 1 && is_told(told[at - 1], false),
    }
}

/// What follows an answer to an update.
proof fn lemma_update_told_step(
    settings: AppConfigView,
    contents: Result<Seq<u8>, ApiErrorView>,
    told: Seq<EventView>,
    action: ActionView,
    state: UpdateView,
    event: EventView,
)
    requires
        update_told(settings, contents, told, action, state),
    ensures
        ({
            let more = told.push(event);
            match update_next(settings, contents, state, event) {
                Step::Perform { action: asked, state: next } => update_told(
                    settings,
                    contents,
                    more,
                    asked,
                    next,
                ),
                Step::Finish { response } => is_update_answer(
                    settings,
                    more,
                    response.path,
                    response.backup,
                ),
                Step::Fail { error } => true,
            }
        }),
        is_failure(event) && is_answer_to(action, event) ==> is_reported(
            update_next(settings, contents, state, event),
            failed_update(told.len(), action),
            action,
            event,
        ),
        !is_answer_to(action, event) ==> is_refused(update_next(settings, contents, state, event)),
{
    let more = told.push(event);
    let n = told.len() as int;
    assert(more[n] == event);
    assert(more.last() == event);
    assert(forall|i: int| 0 <= i < n ==> more[i] == told[i]);
    if let UpdateView::BackingUp { snapshot } = state {
        lemma_snapshot_told_step(
            settings,
            told,
            before_backup(settings),
            action,
            snapshot,
            event,
        );
    }
}

/// What holds of the answers to an update, up to the one that ends it.
proof fn lemma_update_told(
    settings: AppConfigView,
    contents: Result<Seq<u8>, ApiErrorView>,
    told: Seq<EventView>,
)
    requires
        told.len() > 0 ==> update_after(settings, contents, told.drop_last()) is Perform,
    ensures
        match update_after(settings, contents, told) {
            Step::Perform { action, state } => update_told(
                settings,
                contents,
                told,
                action,
                state,
            ),
            Step::Finish { response } => is_update_answer(
                settings,
                told,
                response.path,
                response.backup,
            ),
            Step::Fail { error } => true,
        },
    decreases told.len(),
{
    if told.len() > 0 {
        let front = told.drop_last();
        lemma_update_told(settings, contents, front);
        assert(front.push(told.last()) =~= told);
        if let Step::Perform { action, state } = update_after(settings, contents, front) {
            lemma_update_told_step(settings, contents, front, action, state, told.last());
        }
    }
}

/// An update that succeeds names the configuration, and the backup, exactly if it was told that
/// there was a configuration, with what was told of it.
pub proof fn law_update_is_told_as_it_is(
    settings: AppConfigView,
    contents: Result<Seq<u8>, ApiErrorView>,
    events: Seq<EventView>,
)
    requires
        events.len() > 0,
        update_after(settings, contents, events.drop_last()) is Perform,
        update_after(settings, contents, events) is Finish,
    ensures
        is_update_answer(
            settings,
            events,
            update_after(settings, contents, events)->response.path,
            update_after(settings, contents, events)->response.backup,
        ),
{
    lemma_update_told(settings, contents, events);
}

/// Each failure during an update ends it with a report that names the path and the reason.
pub proof fn law_update_reports_failures(
    settings: AppConfigView,
    contents: Result<Seq<u8>, ApiErrorView>,
    events: Seq<EventView>,
    event: EventView,
)
    requires
        update_after(settings, contents, events) is Perform,
        is_failure(event),
        is_answer_to(update_after(settings, contents, events)->action, event),
    ensures
        is_reported(
            update_after(settings, contents, events.push(event)),
            failed_update(events.len(), update_after(settings, contents, events)->action),
            update_after(settings, contents, events)->action,
            event,
        ),
{
    assert(events.len() > 0 ==> update_after(settings, contents, events.drop_last()) is Perform);
    lemma_update_told(settings, contents, events);
    let step = update_after(settings, contents, events);
    lemma_update_told_step(settings, contents, events, step->action, step->state, event);
    assert(events.push(event).drop_last() =~= events);
}

/// Whether the answers before `at` are those with which a restore starts: there is such a backup,
/// and whether there is a configuration, and then those to the backup of it, of which `previous`
/// tells, if there is one.
pub open spec fn is_told_previous(
    settings: AppConfigView,
    told: Seq<EventView>,
    at: int,
    previous: Option<FileEntryView>,
) -> bool {
    &&& told.len() >= at
    &&& told.len() >= 2
    &&& is_told(told[0], true)
    &&& match previous {
        Some(entry) => {
            &&& at == 7
            &&& is_told(told[1], true)
            &&& is_told_backup(settings, told, 2, entry)
        },
        None => at == 2 && is_told(told[1], false),
    }
}

/// How many answers come before a restore reads the backup.
pub open spec fn before_reading(
    settings: AppConfigView,
    previous: Option<FileEntryView>,
) -> int {
    let at: int = if previous is Some {
        7
    } else {
        2
    };
    if parent(settings.sing_box_config_path) is Some {
        at + 1
    } else {
        at
    }
}

/// What a restore was told, and what it asks for.
spec fn restore_told(
    settings: AppConfigView,
    name: Seq<char>,
    told: Seq<EventView>,
    action: ActionView,
    state: RestoreView,
) -> bool {
    let config = settings.sing_box_config_path;
    let kept = join(settings.backups_dir, encode_utf8(name));
    &&& state.backup == kept
    &&& match state.stage {
        RestoreStageView::CheckingBackup => {
            &&& told.len() == 0
            &&& action == (ActionView::CheckExists { path: kept })
        },
        RestoreStageView::CheckingConfig => {
            &&& told.len() == 1
            &&& is_told(told[0], true)
            &&& action == (ActionView::CheckExists { path: config })
        },
        RestoreStageView::BackingUp { snapshot } => {
            &&& told.len() >= 2
            &&& is_told(told[0], true)
            &&& is_told(told[1], true)
            &&& snapshot_told(settings, told, 2, action, snapshot)
        },
        RestoreStageView::CreatingDir { dir, previous } => {
            &&& is_told_previous(settings, told, told.len() as int, previous)
            &&& parent(config) == Some(dir)
            &&& action == (ActionView::CreateDirs { path: dir })
        },
        RestoreStageView::Reading { previous } => {
            let at = before_reading(settings, previous);
            &&& told.len() == at
            &&& is_told_previous(
                settings,
                told,
                if previous is Some {
                    7
                } else {
                    2
                },
                previous,
            )
            &&& action == (ActionView::ReadFile { path: kept })
        },
        RestoreStageView::Writing { previous } => {
            let at = before_reading(settings, previous);
            &&& told.len() == at + 1
            &&& is_told_previous(
                settings,
                told,
                if previous is Some {
                    7
                } else {
                    2
                },
                previous,
            )
            &&& told[at] is Contents
            &&& told[at]->Contents_0 is Ok
            &&& action == (ActionView::WriteFile {
                path: config,
                contents: told[at]->Contents_0->Ok_0,
            })
        },
        RestoreStageView::ReadingMetadata { previous } => {
            let at = before_reading(settings, previous);
            &&& told.len() == at + 2
            &&& is_told_previous(
                settings,
                told,
                if previous is Some {
                    7
                } else {
                    2
                },
                previous,
            )
            &&& is_done(told[at + 1])
            &&& action == (ActionView::ReadMetadata { path: kept })
        },
    }
}

/// Whether `response` is the answer to a restore that was told `told`: it tells of the backup what
/// was told of it last, and of the backup of the configuration before, if there was one.
pub open spec fn is_restore_answer(
    settings: AppConfigView,
    name: Seq<char>,
    told: Seq<EventView>,
    response: RestoreBackupResponseView,
) -> bool {
    let previous = response.previous_config_backup;
    &&& told.len() == before_reading(settings, previous) + 3
    &&& is_told_previous(
        settings,
        told,
        if previous is Some {
            7
        } else {
            2
        },
        previous,
    )
    &&& told.last() is Metadata
    &&& told.last()->Metadata_0 is Ok
    &&& is_entry_of(
        response.restored_from,
        join(settings.backups_dir, encode_utf8(name)),
        told.last()->Metadata_0->Ok_0,
    )
}

/// What was told before stays told.
proof fn lemma_previous_stays(
    settings: AppConfigView,
    told: Seq<EventView>,
    event: EventView,
    at: int,
    previous: Option<FileEntryView>,
)
    requires
        is_told_previous(settings, told, at, previous),
    ensures
        is_told_previous(settings, told.push(event), at, previous),
{
    assert(forall|i: int| 0 <= i < told.len() ==> told.push(event)[i] == told[i]);
}

/// What follows an answer to a restore.
#[verifier::spinoff_prover]
#[verifier::rlimit(40)]
proof fn lemma_restore_told_step(
    settings: AppConfigView,
    name: Seq<char>,
    told: Seq<EventView>,
    action: ActionView,
    state: RestoreView,
    event: EventView,
)
    requires
        restore_told(settings, name, told, action, state),
    ensures
        ({
            let more = told.push(event);
            match restore_next(settings, state, event) {
                Step::Perform { action: asked, state: next } => restore_told(
                    settings,
                    name,
                    more,
                    asked,
                    next,
                ),
                Step::Finish { response } => is_restore_answer(settings, name, more, response),
                Step::Fail { error } => true,
            }
        }),
        is_failure(event) && is_answer_to(action, event) ==> is_reported(
            restore_next(settings, state, event),
            failed_restore(state.backup, told.len(), action),
            action,
            event,
        ),
        !is_answer_to(action, event) ==> is_refused(restore_next(settings, state, event)),
        state.stage is CheckingBackup && event == EventView::Found(Ok(false)) ==> {
            let step = restore_next(settings, state, event);
            &&& step is Fail
            &&& step->error.status == 404
            &&& step->error.message == "backup not found: "@ + lossy_text(state.backup)
        },
{
    let more = told.push(event);
    let n = told.len() as int;
    let kept = state.backup;
    assert(more[n] == event);
    assert(more.last() == event);
    assert(forall|i: int| 0 <= i < n ==> more[i] == told[i]);
    match state.stage {
        RestoreStageView::BackingUp { snapshot } => {
            lemma_snapshot_told_step(settings, told, 2, action, snapshot, event);
        },
        RestoreStageView::CreatingDir { dir, previous } => {
            lemma_previous_stays(settings, told, event, n, previous);
        },
        RestoreStageView::Reading { previous } => {
            let at: int = if previous is Some {
                7
            } else {
                2
            };
            lemma_previous_stays(settings, told, event, at, previous);
        },
        RestoreStageView::Writing { previous } => {
            let at: int = if previous is Some {
                7
            } else {
                2
            };
            lemma_previous_stays(settings, told, event, at, previous);
        },
        RestoreStageView::ReadingMetadata { previous } => {
            let at: int = if previous is Some {
                7
            } else {
                2
            };
            lemma_previous_stays(settings, told, event, at, previous);
            if let EventView::Metadata(Ok(metadata)) = event {
                law_files_are_told_as_they_are(ListKind::Backups, kept, metadata);
            }
        },
        _ => {},
    }
}

/// What holds of the answers to a restore, up to the one that ends it.
proof fn lemma_restore_told(settings: AppConfigView, name: Seq<char>, told: Seq<EventView>)
    requires
        told.len() > 0 ==> restore_after(settings, name, told.drop_last()) is Perform,
    ensures
        match restore_after(settings, name, told) {
            Step::Perform { action, state } => restore_told(settings, name, told, action, state),
            Step::Finish { response } => is_restore_answer(settings, name, told, response),
            Step::Fail { error } => true,
        },
    decreases told.len(),
{
    law_backup_names_are_plain(name);
    if told.len() > 0 {
        let front = told.drop_last();
        lemma_restore_told(settings, name, front);
        assert(front.push(told.last()) =~= told);
        if let Step::Perform { action, state } = restore_after(settings, name, front) {
            lemma_restore_told_step(settings, name, front, action, state, told.last());
        }
    }
}

/// A restore that succeeds tells of the backup what was told of it, and of the backup of the
/// configuration before, exactly if it was told that there was one.
pub proof fn law_restore_is_told_as_it_is(
    settings: AppConfigView,
    name: Seq<char>,
    events: Seq<EventView>,
)
    requires
        events.len() > 0,
        restore_after(settings, name, events.drop_last()) is Perform,
        restore_after(settings, name, events) is Finish,
    ensures
        is_restore_answer(
            settings,
            name,
            events,
            restore_after(settings, name, events)->response,
        ),
{
    lemma_restore_told(settings, name, events);
}

/// Each failure during a restore ends it with a report that names the path and the reason.
pub proof fn law_restore_reports_failures(
    settings: AppConfigView,
    name: Seq<char>,
    events: Seq<EventView>,
    event: EventView,
)
    requires
        restore_after(settings, name, events) is Perform,
        is_failure(event),
        is_answer_to(restore_after(settings, name, events)->action, event),
    ensures
        is_reported(
            restore_after(settings, name, events.push(event)),
            failed_restore(
                join(settings.backups_dir, encode_utf8(name)),
                events.len(),
                restore_after(settings, name, events)->action,
            ),
            restore_after(settings, name, events)->action,
            event,
        ),
{
    assert(events.len() > 0 ==> restore_after(settings, name, events.drop_last()) is Perform);
    lemma_restore_told(settings, name, events);
    let step = restore_after(settings, name, events);
    lemma_restore_told_step(settings, name, events, step->action, step->state, event);
    assert(events.push(event).drop_last() =~= events);
}

/// A backup that is said not to exist is told as missing, and nothing else is asked for.
pub proof fn law_missing_backup_is_told_as_missing(settings: AppConfigView, name: Seq<char>)
    requires
        backup_name(name) is Ok,
    ensures
        ({
            let kept = join(settings.backups_dir, encode_utf8(name));
            let first = restore_after(settings, name, Seq::empty());
            let then = restore_after(settings, name, seq![EventView::Found(Ok(false))]);
            &&& first is Perform
            &&& first->action == (ActionView::CheckExists { path: kept })
            &&& then is Fail
            &&& then->error.status == 404
            &&& then->error.message == "backup not found: "@ + lossy_text(kept)
        }),
{
    law_backup_names_are_plain(name);
    let none = Seq::<EventView>::empty();
    let event = EventView::Found(Ok(false));
    lemma_restore_told(settings, name, none);
    let first = restore_after(settings, name, none);
    lemma_restore_told_step(settings, name, none, first->action, first->state, event);
    assert(seq![event].drop_last() =~= none);
    assert(seq![event].last() == event);
}

/// Where there is no configuration, a backup is told so, and nothing else is asked for.
pub proof fn law_missing_config_is_told_as_missing(settings: AppConfigView)
    ensures
        ({
            let config = settings.sing_box_config_path;
            let first = snapshot_after(settings, Seq::empty());
            let then = snapshot_after(settings, seq![EventView::Found(Ok(false))]);
            &&& first is Perform
            &&& first->action == (ActionView::CheckExists { path: config })
            &&& then is Fail
            &&& then->error.status == 404
            &&& then->error.message == "sing-box config not found: "@ + lossy_text(config)
        }),
{
    let none = Seq::<EventView>::empty();
    let event = EventView::Found(Ok(false));
    lemma_snapshot_told(settings, none);
    let first = snapshot_after(settings, none);
    lemma_snapshot_told_step(settings, none, 0, first->action, first->state, event);
    assert(seq![event].drop_last() =~= none);
    assert(seq![event].last() == event);
}

/// Whether a response tells what a program left behind, and the command as which it was run.
pub open spec fn is_report_of(
    response: CommandResponseView,
    words: Seq<Seq<char>>,
    output: CommandOutputView,
) -> bool {
    &&& response.command == shell_join(words)
    &&& response.success == output.success
    &&& response.exit_code == output.exit_code
    &&& response.stdout == lossy_text(output.stdout)
    &&& response.stderr == lossy_text(output.stderr)
}

/// The report on a service command tells what the program left behind: whether it succeeded, its
/// exit code and what it wrote to each of its two outputs; and the words that were run.
pub proof fn law_service_tells_what_was_left_behind(
    command_line: Seq<char>,
    output: CommandOutputView,
)
    requires
        service_start(command_line) is Perform,
    ensures
        ({
            let first = service_start(command_line);
            let then = service_next(first->state, EventView::Output(Ok(output)));
            &&& first->action is RunProgram
            &&& then is Finish
            &&& is_report_of(
                then->response,
                seq![first->action->program] + first->action->args,
                output,
            )
        }),
{
    if let Some(words) = shell_split(command_line) {
        law_first_word_is_the_program(words);
    }
}

/// A service command that does not start is an error of the server that names the command and the
/// reason.
pub proof fn law_service_reports_failures(command_line: Seq<char>, failure: IoFailureView)
    requires
        service_start(command_line) is Perform,
    ensures
        ({
            let first = service_start(command_line);
            let then = service_next(first->state, EventView::Output(Err(failure)));
            &&& then is Fail
            &&& then->error.status == 500
            &&& then->error.message == "failed to execute command '"@ + shell_join(
                seq![first->action->program] + first->action->args,
            ) + "': "@ + failure.message
        }),
{
    if let Some(words) = shell_split(command_line) {
        law_first_word_is_the_program(words);
    }
}

/// What a check was told, and what it asks for.
spec fn check_told(
    settings: AppConfigView,
    temp: Seq<u8>,
    contents: Result<Seq<u8>, ApiErrorView>,
    told: Seq<EventView>,
    action: ActionView,
    state: CheckView,
) -> bool {
    let words = check_command(settings.check_command, temp)->Ok_0;
    &&& contents is Ok
    &&& state.temp == temp
    &&& match state.stage {
        CheckStageView::Writing => {
            &&& told.len() == 0
            &&& action == (ActionView::WriteFile { path: temp, contents: contents->Ok_0 })
        },
        CheckStageView::Running { display } => {
            &&& told.len() == 1
            &&& is_done(told[0])
            &&& check_command(settings.check_command, temp) is Ok
            &&& action is RunProgram
            &&& words == seq![action->program] + action->args
            &&& display == shell_join(words)
        },
        CheckStageView::Removing { result } => {
            &&& told.len() == 2
            &&& is_done(told[0])
            &&& told[1] is Output
            &&& check_command(settings.check_command, temp) is Ok
            &&& action == (ActionView::RemoveFile { path: temp })
            &&& told[1]->Output_0 matches Ok(output) ==> result is Ok && is_report_of(
                result->Ok_0,
                words,
                output,
            )
            &&& told[1]->Output_0 matches Err(failure) ==> {
                &&& result is Err
                &&& result->Err_0.status == 500
                &&& result->Err_0.message == "failed to execute command '"@ + shell_join(words)
                    + "': "@ + failure.message
            }
        },
    }
}

/// How a check ends, by what it was told.
spec fn check_end(
    settings: AppConfigView,
    temp: Seq<u8>,
    told: Seq<EventView>,
    step: CheckStepView,
) -> bool {
    let words = check_command(settings.check_command, temp)->Ok_0;
    match step {
        Step::Perform { action, state } => true,
        Step::Finish { response } => {
            &&& told.len() == 3
            &&& check_command(settings.check_command, temp) is Ok
            &&& told[1] is Output
            &&& told[1]->Output_0 is Ok
            &&& is_report_of(response, words, told[1]->Output_0->Ok_0)
        },
        Step::Fail { error } => told.len() == 3 && told[1] is Output && told[2] is Done ==> {
            &&& told[1]->Output_0 is Err
            &&& error.status == 500
            &&& error.message == "failed to execute command '"@ + shell_join(words) + "': "@
                + told[1]->Output_0->Err_0.message
        },
    }
}

/// What follows an answer to a check.
proof fn lemma_check_told_step(
    settings: AppConfigView,
    temp: Seq<u8>,
    contents: Result<Seq<u8>, ApiErrorView>,
    told: Seq<EventView>,
    action: ActionView,
    state: CheckView,
    event: EventView,
)
    requires
        check_told(settings, temp, contents, told, action, state),
    ensures
        ({
            let step = check_next(settings, state, event);
            &&& step matches Step::Perform { action: asked, state: next } ==> check_told(
                settings,
                temp,
                contents,
                told.push(event),
                asked,
                next,
            )
            &&& check_end(settings, temp, told.push(event), step)
            &&& !is_answer_to(action, event) ==> is_refused(step)
        }),
{
    let more = told.push(event);
    let n = told.len() as int;
    assert(more[n] == event);
    assert(forall|i: int| 0 <= i < n ==> more[i] == told[i]);
    if state.stage is Writing {
        if let Ok(words) = check_command(settings.check_command, temp) {
            if let Ok(given) = crate::command::command_words(settings.check_command) {
                law_check_names_the_config(given, lossy_text(temp));
            }
            law_first_word_is_the_program(words);
        }
    }
    if let CheckStageView::Running { display } = state.stage {
        if let EventView::Output(output) = event {
            crate::command::law_reports_tell_what_was_left_behind(display, output);
        }
    }
}

/// What holds of the answers to a check, up to the one that ends it.
proof fn lemma_check_told(
    settings: AppConfigView,
    temp: Seq<u8>,
    contents: Result<Seq<u8>, ApiErrorView>,
    told: Seq<EventView>,
)
    requires
        told.len() > 0 ==> check_after(settings, temp, contents, told.drop_last()) is Perform,
    ensures
        check_after(settings, temp, contents, told) matches Step::Perform { action, state }
            ==> check_told(settings, temp, contents, told, action, state),
        check_end(settings, temp, told, check_after(settings, temp, contents, told)),
    decreases told.len(),
{
    if told.len() > 0 {
        let front = told.drop_last();
        lemma_check_told(settings, temp, contents, front);
        assert(front.push(told.last()) =~= told);
        if let Step::Perform { action, state } = check_after(settings, temp, contents, front) {
            lemma_check_told_step(settings, temp, contents, front, action, state, told.last());
        }
    }
}

/// A check that succeeds tells what the command left behind, success and failure alike: whether it
/// succeeded, its exit code and what it wrote to each of its two outputs; and the words that were
/// run.
pub proof fn law_check_tells_what_was_left_behind(
    settings: AppConfigView,
    temp: Seq<u8>,
    contents: Result<Seq<u8>, ApiErrorView>,
    events: Seq<EventView>,
)
    requires
        events.len() > 0,
        check_after(settings, temp, contents, events.drop_last()) is Perform,
        check_after(settings, temp, contents, events) is Finish,
    ensures
        ({
            let asked = check_after(settings, temp, contents, events.take(1));
            &&& events.len() == 3
            &&& events[1] is Output
            &&& events[1]->Output_0 is Ok
            &&& asked is Perform
            &&& asked->action is RunProgram
            &&& is_report_of(
                check_after(settings, temp, contents, events)->response,
                seq![asked->action->program] + asked->action->args,
                events[1]->Output_0->Ok_0,
            )
        }),
{
    lemma_check_told(settings, temp, contents, events);
    let two = events.drop_last();
    assert(two.drop_last() =~= events.take(1));
    assert(check_after(settings, temp, contents, two.drop_last()) is Perform);
    assert(events.take(1).drop_last() =~= Seq::empty());
    assert(check_after(settings, temp, contents, Seq::empty()) is Perform);
    lemma_check_told(settings, temp, contents, events.take(1));
}

/// A check whose command does not start is an error of the server that names the command and the
/// reason, once the check's file was asked to be deleted.
pub proof fn law_check_reports_failures(
    settings: AppConfigView,
    temp: Seq<u8>,
    contents: Result<Seq<u8>, ApiErrorView>,
    failure: IoFailureView,
    removed: Result<(), IoFailureView>,
)
    requires
        contents is Ok,
        check_command(settings.check_command, temp) is Ok,
    ensures
        ({
            let written = EventView::Done(Ok(()));
            let tried = EventView::Output(Err(failure));
            let then = check_after(settings, temp, contents, seq![written, tried]);
            let end = check_after(
                settings,
                temp,
                contents,
                seq![written, tried, EventView::Done(removed)],
            );
            &&& then is Perform
            &&& then->action == (ActionView::RemoveFile { path: temp })
            &&& end is Fail
            &&& end->error.status == 500
            &&& end->error.message == "failed to execute command '"@ + shell_join(
                check_command(settings.check_command, temp)->Ok_0,
            ) + "': "@ + failure.message
        }),
{
    let written = EventView::Done(Ok(()));
    let tried = EventView::Output(Err(failure));
    let done = EventView::Done(removed);
    reveal_with_fuel(after, 4);
    let all = seq![written, tried, done];
    assert(all.drop_last() =~= seq![written, tried]);
    assert(seq![written, tried].drop_last() =~= seq![written]);
    assert(seq![written].drop_last() =~= Seq::empty());
    if let Ok(given) = crate::command::command_words(settings.check_command) {
        law_check_names_the_config(given, lossy_text(temp));
    }
    let words = check_command(settings.check_command, temp)->Ok_0;
    law_first_word_is_the_program(words);
    lemma_check_told(settings, temp, contents, seq![written, tried]);
    lemma_check_told(settings, temp, contents, all);
}

/// A check whose file cannot be written is an error of the server that names the file and the
/// reason.
pub proof fn law_check_reports_an_unwritten_file(
    settings: AppConfigView,
    temp: Seq<u8>,
    contents: Seq<u8>,
    failure: IoFailureView,
)
    ensures
        ({
            let end = check_after(
                settings,
                temp,
                Ok(contents),
                seq![EventView::Done(Err(failure))],
            );
            &&& end is Fail
            &&& is_report_on(
                end->error,
                "failed to write temporary config "@,
                lossy_text(temp),
                failure,
            )
        }),
{
    reveal_with_fuel(after, 2);
    let event = EventView::Done(Err(failure));
    assert(seq![event].drop_last() =~= Seq::empty());
}

/// What a download was told, and what it asks for.
spec fn download_told(
    settings: AppConfigView,
    source_url: Seq<char>,
    url: UrlView,
    name: Seq<char>,
    told: Seq<EventView>,
    action: ActionView,
    state: DownloadView,
) -> bool {
    let path = join(settings.srs_dir, encode_utf8(name));
    &&& state.source_url == source_url
    &&& state.url == url.text
    &&& state.file_name == name
    &&& told.len() > 0 ==> {
        &&& told[0] is Status
        &&& told[0]->Status_0 is Ok
        &&& 200 <= told[0]->Status_0->Ok_0 <= 299
    }
    &&& told.len() > 1 ==> told[1] is Contents && told[1]->Contents_0 is Ok
    &&& told.len() > 2 ==> is_done(told[2])
    &&& told.len() > 3 ==> is_done(told[3])
    &&& match state.stage {
        DownloadStage::Fetching => {
            &&& told.len() == 0
            &&& action == (ActionView::Fetch { url: url.text })
        },
        DownloadStage::ReadingBody => {
            &&& told.len() == 1
            &&& action == ActionView::ReadBody
        },
        DownloadStage::CreatingDir { contents } => {
            &&& told.len() == 2
            &&& contents == told[1]->Contents_0->Ok_0
            &&& action == (ActionView::CreateDirs { path: settings.srs_dir })
        },
        DownloadStage::Writing { path: to } => {
            &&& told.len() == 3
            &&& to == path
            &&& action == (ActionView::WriteFile { path, contents: told[1]->Contents_0->Ok_0 })
        },
        DownloadStage::ReadingMetadata { path: of } => {
            &&& told.len() == 4
            &&& of == path
            &&& action == (ActionView::ReadMetadata { path })
        },
    }
}

/// Whether `response` is the answer to a download that was told `told`: the address as it was
/// given, and what was told of the file under its name.
pub open spec fn is_download_answer(
    settings: AppConfigView,
    source_url: Seq<char>,
    name: Seq<char>,
    told: Seq<EventView>,
    response: DownloadSrsResponseView,
) -> bool {
    &&& told.len() == 5
    &&& told[0] is Status
    &&& told[0]->Status_0 is Ok
    &&& 200 <= told[0]->Status_0->Ok_0 <= 299
    &&& told[4] is Metadata
    &&& told[4]->Metadata_0 is Ok
    &&& response.source_url == source_url
    &&& is_entry_of(
        response.file,
        join(settings.srs_dir, encode_utf8(name)),
        told[4]->Metadata_0->Ok_0,
    )
}

/// What follows an answer to a download.
proof fn lemma_download_told_step(
    settings: AppConfigView,
    source_url: Seq<char>,
    url: UrlView,
    name: Seq<char>,
    told: Seq<EventView>,
    action: ActionView,
    state: DownloadView,
    event: EventView,
)
    requires
        download_told(settings, source_url, url, name, told, action, state),
    ensures
        ({
            let more = told.push(event);
            match download_next(settings, state, event) {
                Step::Perform { action: asked, state: next } => download_told(
                    settings,
                    source_url,
                    url,
                    name,
                    more,
                    asked,
                    next,
                ),
                Step::Finish { response } => is_download_answer(
                    settings,
                    source_url,
                    name,
                    more,
                    response,
                ),
                Step::Fail { error } => true,
            }
        }),
        is_failure(event) && is_answer_to(action, event) ==> {
            let step = download_next(settings, state, event);
            &&& step is Fail
            &&& is_report_on(
                step->error,
                failed_download(action),
                if action is Fetch || action is ReadBody {
                    url.text
                } else {
                    lossy_text(subject_of(action))
                },
                failure_of(event),
            )
        },
        !is_answer_to(action, event) ==> is_refused(download_next(settings, state, event)),
        action is Fetch ==> (event matches EventView::Status(Ok(status)) ==> if 200 <= status
            <= 299 {
            download_next(settings, state, event) is Perform
        } else {
            let step = download_next(settings, state, event);
            &&& step is Fail
            &&& step->error.status == 500
            &&& step->error.message == "failed to download srs file from "@ + url.text
                + ": upstream returned "@ + status_text(status)
        }),
{
    let more = told.push(event);
    let n = told.len() as int;
    assert(more[n] == event);
    assert(forall|i: int| 0 <= i < n ==> more[i] == told[i]);
    if let DownloadStage::ReadingMetadata { path } = state.stage {
        if let EventView::Metadata(Ok(metadata)) = event {
            law_files_are_told_as_they_are(ListKind::Srs, path, metadata);
        }
    }
}

/// What holds of the answers to a download, up to the one that ends it.
proof fn lemma_download_told(
    settings: AppConfigView,
    source_url: Seq<char>,
    parsed: Result<UrlView, Seq<char>>,
    told: Seq<EventView>,
)
    requires
        srs_source(parsed) is Ok,
        told.len() > 0 ==> download_after(settings, source_url, parsed, told.drop_last()) is
            Perform,
    ensures
        ({
            let (url, name) = srs_source(parsed)->Ok_0;
            match download_after(settings, source_url, parsed, told) {
                Step::Perform { action, state } => download_told(
                    settings,
                    source_url,
                    url,
                    name,
                    told,
                    action,
                    state,
                ),
                Step::Finish { response } => is_download_answer(
                    settings,
                    source_url,
                    name,
                    told,
                    response,
                ),
                Step::Fail { error } => true,
            }
        }),
    decreases told.len(),
{
    if told.len() > 0 {
        let front = told.drop_last();
        let (url, name) = srs_source(parsed)->Ok_0;
        lemma_download_told(settings, source_url, parsed, front);
        assert(front.push(told.last()) =~= told);
        if let Step::Perform { action, state } = download_after(
            settings,
            source_url,
            parsed,
            front,
        ) {
            lemma_download_told_step(
                settings,
                source_url,
                url,
                name,
                front,
                action,
                state,
                told.last(),
            );
        }
    }
}

/// A download requests the URL of the address itself, before anything else, and only once; it
/// writes only what it was sent, and only under the name in the address. A refused address is told
/// by the reason for its refusal.
pub proof fn law_download_works_on_the_address(
    settings: AppConfigView,
    source_url: Seq<char>,
    parsed: Result<UrlView, Seq<char>>,
    events: Seq<EventView>,
)
    requires
        events.len() > 0 ==> download_after(settings, source_url, parsed, events.drop_last()) is
            Perform,
    ensures
        srs_source(parsed) is Err && events.len() == 0 ==> download_after(
            settings,
            source_url,
            parsed,
            events,
        ) == (DownloadStepView::Fail { error: srs_source(parsed)->Err_0 }),
        srs_source(parsed) is Ok && events.len() == 0 ==> download_after(
            settings,
            source_url,
            parsed,
            events,
        ) is Perform,
        srs_source(parsed) is Ok ==> (download_after(settings, source_url, parsed, events) matches
            Step::Perform { action, state } ==> {
            let (url, name) = srs_source(parsed)->Ok_0;
            &&& events.len() == 0 <==> action is Fetch
            &&& action is Fetch ==> action->url == url.text
            &&& action matches ActionView::WriteFile { path, contents } ==> {
                &&& path == join(settings.srs_dir, encode_utf8(name))
                &&& events.len() == 3
                &&& events[1] == EventView::Contents(Ok(contents))
            }
            &&& action matches ActionView::CreateDirs { path } ==> path == settings.srs_dir
            &&& !(action is RemoveFile) && !(action is CopyFile) && !(action is RunProgram)
        }),
{
    if srs_source(parsed) is Ok {
        lemma_download_told(settings, source_url, parsed, events);
    }
}

/// A download that succeeds tells the address as it was given, and of the file what was told of it.
pub proof fn law_download_is_told_as_it_is(
    settings: AppConfigView,
    source_url: Seq<char>,
    parsed: Result<UrlView, Seq<char>>,
    events: Seq<EventView>,
)
    requires
        events.len() > 0,
        download_after(settings, source_url, parsed, events.drop_last()) is Perform,
        download_after(settings, source_url, parsed, events) is Finish,
    ensures
        srs_source(parsed) is Ok,
        is_download_answer(
            settings,
            source_url,
            srs_source(parsed)->Ok_0.1,
            events,
            download_after(settings, source_url, parsed, events)->response,
        ),
{
    assert(srs_source(parsed) is Ok) by {
        if srs_source(parsed) is Err {
            lemma_refused_stays_refused(settings, source_url, parsed, events.drop_last());
        }
    }
    lemma_download_told(settings, source_url, parsed, events);
}

/// A refused download stays refused.
proof fn lemma_refused_stays_refused(
    settings: AppConfigView,
    source_url: Seq<char>,
    parsed: Result<UrlView, Seq<char>>,
    events: Seq<EventView>,
)
    requires
        srs_source(parsed) is Err,
    ensures
        download_after(settings, source_url, parsed, events) is Fail,
    decreases events.len(),
{
    if events.len() > 0 {
        lemma_refused_stays_refused(settings, source_url, parsed, events.drop_last());
    }
}

/// Each failure during a download ends it with a report that names the address or the path, and the
/// reason.
pub proof fn law_download_reports_failures(
    settings: AppConfigView,
    source_url: Seq<char>,
    parsed: Result<UrlView, Seq<char>>,
    events: Seq<EventView>,
    event: EventView,
)
    requires
        download_after(settings, source_url, parsed, events) is Perform,
        is_failure(event),
        is_answer_to(download_after(settings, source_url, parsed, events)->action, event),
    ensures
        ({
            let action = download_after(settings, source_url, parsed, events)->action;
            let end = download_after(settings, source_url, parsed, events.push(event));
            &&& end is Fail
            &&& is_report_on(
                end->error,
                failed_download(action),
                if action is Fetch || action is ReadBody {
                    srs_source(parsed)->Ok_0.0.text
                } else {
                    lossy_text(subject_of(action))
                },
                failure_of(event),
            )
        }),
{
    if srs_source(parsed) is Err {
        lemma_refused_stays_refused(settings, source_url, parsed, events);
    }
    assert(events.len() > 0 ==> download_after(settings, source_url, parsed, events.drop_last())
        is Perform);
    lemma_download_told(settings, source_url, parsed, events);
    let (url, name) = srs_source(parsed)->Ok_0;
    let step = download_after(settings, source_url, parsed, events);
    lemma_download_told_step(
        settings,
        source_url,
        url,
        name,
        events,
        step->action,
        step->state,
        event,
    );
    assert(events.push(event).drop_last() =~= events);
}

/// The file is received exactly if the server answers with success; any other status is an error
/// of the server that names the address and the status.
pub proof fn law_download_needs_success(
    settings: AppConfigView,
    source_url: Seq<char>,
    parsed: Result<UrlView, Seq<char>>,
    status: u16,
)
    requires
        srs_source(parsed) is Ok,
    ensures
        ({
            let then = download_after(
                settings,
                source_url,
                parsed,
                seq![EventView::Status(Ok(status))],
            );
            &&& 200 <= status <= 299 ==> then is Perform && then->action == ActionView::ReadBody
            &&& !(200 <= status <= 299) ==> {
                &&& then is Fail
                &&& then->error.status == 500
                &&& then->error.message == "failed to download srs file from "@ + srs_source(
                    parsed,
                )->Ok_0.0.text + ": upstream returned "@ + status_text(status)
            }
        }),
{
    let event = EventView::Status(Ok(status));
    let none = Seq::<EventView>::empty();
    let (url, name) = srs_source(parsed)->Ok_0;
    lemma_download_told(settings, source_url, parsed, none);
    let first = download_after(settings, source_url, parsed, none);
    lemma_download_told_step(
        settings,
        source_url,
        url,
        name,
        none,
        first->action,
        first->state,
        event,
    );
    assert(seq![event].drop_last() =~= none);
    assert(seq![event].last() == event);
    assert(none.push(event) =~= seq![event]);
}

/// What a list asks for, by how far it has got.
spec fn list_asks(dir: Seq<u8>, action: ActionView, state: ListFilesView) -> bool {
    match state.stage {
        ListStage::CheckingDir => action == (ActionView::CheckExists { path: dir }),
        ListStage::OpeningDir => action == (ActionView::OpenDir { path: dir }),
        ListStage::ReadingEntry => action == ActionView::NextEntry,
        ListStage::CheckingEntry { path } => action == (ActionView::CheckIsFile { path }),
        ListStage::ReadingMetadata { path } => action == (ActionView::ReadMetadata { path }),
    }
}

/// A list asks for what belongs to how far it has got.
proof fn lemma_list_asks(kind: ListKind, dir: Seq<u8>, events: Seq<EventView>)
    ensures
        list_after(kind, dir, events) matches Step::Perform { action, state } ==> list_asks(
            dir,
            action,
            state,
        ),
    decreases events.len(),
{
    if events.len() > 0 {
        lemma_list_asks(kind, dir, events.drop_last());
    }
}

/// The parts from which the report on a failure during a list is put together.
proof fn lemma_list_words()
    ensures
        "failed to check "@ + "backups"@ + " directory "@ == "failed to check backups directory "@,
        "failed to read "@ + "backups"@ + " directory "@ == "failed to read backups directory "@,
        "failed to iterate "@ + "backups"@ + " directory "@
            == "failed to iterate backups directory "@,
        "failed to inspect "@ + "backup"@ + " entry "@ == "failed to inspect backup entry "@,
        "failed to check "@ + "srs"@ + " directory "@ == "failed to check srs directory "@,
        "failed to read "@ + "srs"@ + " directory "@ == "failed to read srs directory "@,
        "failed to iterate "@ + "srs"@ + " directory "@ == "failed to iterate srs directory "@,
        "failed to inspect "@ + "srs"@ + " entry "@ == "failed to inspect srs entry "@,
{
    reveal_strlit("failed to check ");
    reveal_strlit("failed to read ");
    reveal_strlit("failed to iterate ");
    reveal_strlit("failed to inspect ");
    reveal_strlit("backups");
    reveal_strlit("backup");
    reveal_strlit("srs");
    reveal_strlit(" directory ");
    reveal_strlit(" entry ");
    reveal_strlit("failed to check backups directory ");
    reveal_strlit("failed to read backups directory ");
    reveal_strlit("failed to iterate backups directory ");
    reveal_strlit("failed to inspect backup entry ");
    reveal_strlit("failed to check srs directory ");
    reveal_strlit("failed to read srs directory ");
    reveal_strlit("failed to iterate srs directory ");
    reveal_strlit("failed to inspect srs entry ");
}

/// Each failure during a list ends it with a report that names the path and the reason.
pub proof fn law_list_reports_failures(
    kind: ListKind,
    dir: Seq<u8>,
    events: Seq<EventView>,
    event: EventView,
)
    requires
        list_after(kind, dir, events) is Perform,
        is_failure(event),
        is_answer_to(list_after(kind, dir, events)->action, event),
    ensures
        ({
            let action = list_after(kind, dir, events)->action;
            let end = list_after(kind, dir, events.push(event));
            &&& end is Fail
            &&& is_report_on(
                end->error,
                failed_list(kind, action),
                lossy_text(
                    if action is NextEntry {
                        dir
                    } else {
                        subject_of(action)
                    },
                ),
                failure_of(event),
            )
        }),
{
    lemma_list_asks(kind, dir, events);
    lemma_list_words();
    assert(events.push(event).drop_last() =~= events);
    assert(events.push(event).last() == event);
}

/// An answer that does not belong to the operation that was asked for ends a backup, an update, a
/// restore and a download as an error of the server.
pub proof fn law_other_answers_end_the_work(
    settings: AppConfigView,
    contents: Result<Seq<u8>, ApiErrorView>,
    name: Seq<char>,
    source_url: Seq<char>,
    parsed: Result<UrlView, Seq<char>>,
    events: Seq<EventView>,
    event: EventView,
)
    ensures
        snapshot_after(settings, events) matches Step::Perform { action, state } ==> !is_answer_to(
            action,
            event,
        ) ==> is_refused(snapshot_after(settings, events.push(event))),
        update_after(settings, contents, events) matches Step::Perform { action, state }
            ==> !is_answer_to(action, event) ==> is_refused(
            update_after(settings, contents, events.push(event)),
        ),
        restore_after(settings, name, events) matches Step::Perform { action, state }
            ==> !is_answer_to(action, event) ==> is_refused(
            restore_after(settings, name, events.push(event)),
        ),
        download_after(settings, source_url, parsed, events) matches Step::Perform { action, state }
            ==> !is_answer_to(action, event) ==> is_refused(
            download_after(settings, source_url, parsed, events.push(event)),
        ),
{
    assert(events.push(event).drop_last() =~= events);
    assert(events.push(event).last() == event);
    if let Step::Perform { action, state } = snapshot_after(settings, events) {
        lemma_snapshot_told(settings, events);
        lemma_snapshot_told_step(settings, events, 0, action, state, event);
    }
    if let Step::Perform { action, state } = update_after(settings, contents, events) {
        assert(events.len() > 0 ==> update_after(settings, contents, events.drop_last())
            is Perform);
        lemma_update_told(settings, contents, events);
        lemma_update_told_step(settings, contents, events, action, state, event);
    }
    if let Step::Perform { action, state } = restore_after(settings, name, events) {
        assert(events.len() > 0 ==> restore_after(settings, name, events.drop_last()) is Perform);
        lemma_restore_told(settings, name, events);
        lemma_restore_told_step(settings, name, events, action, state, event);
    }
    if let Step::Perform { action, state } = download_after(settings, source_url, parsed, events) {
        if srs_source(parsed) is Err {
            lemma_refused_stays_refused(settings, source_url, parsed, events);
        }
        assert(events.len() > 0 ==> download_after(
            settings,
            source_url,
            parsed,
            events.drop_last(),
        ) is Perform);
        lemma_download_told(settings, source_url, parsed, events);
        let (url, file) = srs_source(parsed)->Ok_0;
        lemma_download_told_step(
            settings,
            source_url,
            url,
            file,
            events,
            action,
            state,
            event,
        );
    }
}

/// An answer that does not belong to the operation that was asked for ends a check, a list and a
/// service command as an error of the server.
pub proof fn law_other_answers_end_the_rest(
    settings: AppConfigView,
    temp: Seq<u8>,
    contents: Result<Seq<u8>, ApiErrorView>,
    kind: ListKind,
    dir: Seq<u8>,
    command_line: Seq<char>,
    events: Seq<EventView>,
    event: EventView,
)
    ensures
        check_after(settings, temp, contents, events) matches Step::Perform { action, state }
            ==> !is_answer_to(action, event) ==> is_refused(
            check_after(settings, temp, contents, events.push(event)),
        ),
        list_after(kind, dir, events) matches Step::Perform { action, state } ==> !is_answer_to(
            action,
            event,
        ) ==> is_refused(list_after(kind, dir, events.push(event))),
        service_start(command_line) matches Step::Perform { action, state } ==> !is_answer_to(
            action,
            event,
        ) ==> is_refused(service_next(state, event)),
{
    assert(events.push(event).drop_last() =~= events);
    assert(events.push(event).last() == event);
    if let Step::Perform { action, state } = check_after(settings, temp, contents, events) {
        assert(events.len() > 0 ==> check_after(settings, temp, contents, events.drop_last())
            is Perform);
        lemma_check_told(settings, temp, contents, events);
        lemma_check_told_step(settings, temp, contents, events, action, state, event);
    }
    lemma_list_asks(kind, dir, events);
}

/// A service command that cannot be read, or has no words, is an error of the server.
pub proof fn law_service_needs_words(command_line: Seq<char>)
    ensures
        shell_split(command_line) is None ==> (service_start(command_line) matches Step::Fail {
            error,
        } && error.status == 500 && error.message == "failed to parse command '"@ + command_line
            + "': missing closing quote"@),
        shell_split(command_line) matches Some(words) ==> words.len() == 0 ==> (service_start(
            command_line,
        ) matches Step::Fail { error } && error.status == 500 && error.message
            == "configured command is empty"@),
{
    law_command_lines_have_the_words_of_a_shell(command_line);
}

/// A configuration that cannot be written down is neither checked nor put to use: the client is
/// told why, by an update once it would write.
pub proof fn law_unwritten_configs_are_refused(
    settings: AppConfigView,
    temp: Seq<u8>,
    error: ApiErrorView,
    events: Seq<EventView>,
)
    ensures
        check_after(settings, temp, Err(error), Seq::empty()) == (CheckStepView::Fail { error }),
        !(update_after(settings, Err(error), events) is Finish),
        update_after(settings, Err(error), events) matches Step::Perform { action, state }
            ==> !(action is WriteFile),
        events.len() == before_backup(settings) && update_after(
            settings,
            Err(error),
            events.drop_last(),
        ) is Perform && is_told(events.last(), false) ==> update_after(
            settings,
            Err(error),
            events,
        ) == (UpdateStepView::Fail { error }),
    decreases events.len(),
{
    if events.len() > 0 {
        let front = events.drop_last();
        law_unwritten_configs_are_refused(settings, temp, error, front);
        if let Step::Perform { action, state } = update_after(settings, Err(error), front) {
            assert(front.len() > 0 ==> update_after(settings, Err(error), front.drop_last())
                is Perform);
            lemma_update_told(settings, Err(error), front);
            lemma_update_told_step(settings, Err(error), front, action, state, events.last());
            assert(front.push(events.last()) =~= events);
        }
    }
}

/// A check whose command cannot be read is the error that says so.
pub proof fn law_check_reports_an_unreadable_command(
    settings: AppConfigView,
    temp: Seq<u8>,
    contents: Seq<u8>,
)
    requires
        shell_split(settings.check_command) is None,
    ensures
        check_after(
            settings,
            temp,
            Ok(contents),
            seq![EventView::Done(Ok(()))],
        ) matches Step::Fail { error } && error.status == 500 && error.message
            == "failed to parse command '"@ + settings.check_command + "': missing closing quote"@,
{
    reveal_with_fuel(after, 2);
    law_command_lines_have_the_words_of_a_shell(settings.check_command);
    let event = EventView::Done(Ok(()));
    assert(seq![event].drop_last() =~= Seq::empty());
}

} // verus!
