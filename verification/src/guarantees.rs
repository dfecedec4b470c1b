//! What backups, updates and restores do to the files.
use crate::clock::{backup_file_name, has_own_name, same_millisecond, TimestampView};
use crate::directory::{
    is_in_list, is_list_run, is_same_file, is_wanted, law_file_is_in_the_list,
    lemma_plain_name_is_in, list_after, tells_of,
};
use crate::config::AppConfigView;
use crate::document::{
    config_answer, file_contents, is_file_of, law_written_config_is_read_back, shown_config,
    ConfigFileResponseView,
};
use crate::error::{not_found, ApiErrorView};
use crate::io::{ActionView, EventView, Step};
use crate::json::{json_parse, json_pretty};
use crate::listing::{FileEntryView, ListKind};
use crate::names::{backup_name, is_plain_name, law_backup_names_are_plain, lemma_plain};
use crate::path::{file_name, join, lemma_join_name, lemma_plain_file_name, parent};
use crate::restore::{restore_next, restore_start, RestoreStageView, RestoreStepView, RestoreView};
use crate::snapshot::{backup_path, snapshot_next, snapshot_start, Snapshot, SnapshotStepView};
use crate::update::{update_next, update_start, UpdateStepView, UpdateView};
use crate::utf8::{lemma_encoding_is_injective, lossy_text};
use crate::world::{
    after, is_failure, is_run, lemma_run_keeps, no_failure, same_but, truthful, Disk,
};
use vstd::prelude::*;
use vstd::utf8::{decode_utf8, encode_utf8, valid_utf8};

verus! {

/// Where the backup with the given name is kept.
pub open spec fn kept_at(settings: AppConfigView, name: Seq<char>) -> Seq<u8> {
    join(settings.backups_dir, encode_utf8(name))
}

/// Whether `path` is where a backup goes that is made at the time that `event` tells.
pub open spec fn is_stamp(settings: AppConfigView, event: EventView, path: Seq<u8>) -> bool {
    event matches EventView::Time(time) && path == backup_path(settings, time)
}

/// Where backups go that are made at the times that `events` tell.
pub open spec fn stamps(settings: AppConfigView, events: Seq<EventView>) -> Set<Seq<u8>> {
    Set::new(
        |path: Seq<u8>|
            exists|i: int| 0 <= i < events.len() && is_stamp(settings, #[trigger] events[i], path),
    )
}

/// Whether `entry` tells of a backup, under a name by which it can be restored, that holds the
/// configuration as it was on the disk `start`.
pub open spec fn holds_config(
    settings: AppConfigView,
    start: Disk,
    now: Disk,
    entry: FileEntryView,
) -> bool {
    let config = settings.sing_box_config_path;
    let kept = kept_at(settings, entry.name);
    &&& is_plain_name(entry.name)
    &&& entry.path == lossy_text(kept)
    &&& start.read(config) is Some
    &&& kept != config ==> {
        &&& now.read(kept) == start.read(config)
        &&& entry.size_bytes == start.read(config)->0.len()
    }
}

/// The places of backups stay known when more is told.
proof fn lemma_stamps_grow(settings: AppConfigView, events: Seq<EventView>, event: EventView)
    ensures
        stamps(settings, events).subset_of(stamps(settings, events.push(event))),
        forall|path: Seq<u8>| #[trigger]
            is_stamp(settings, event, path) ==> stamps(settings, events.push(event)).contains(path),
{
    let more = events.push(event);
    assert forall|path: Seq<u8>| stamps(settings, events).contains(path) implies stamps(
        settings,
        more,
    ).contains(path) by {
        let i = choose|i: int|
            0 <= i < events.len() && is_stamp(settings, #[trigger] events[i], path);
        assert(is_stamp(settings, more[i], path));
    }
    assert forall|path: Seq<u8>| #[trigger] is_stamp(settings, event, path) implies stamps(
        settings,
        more,
    ).contains(path) by {
        assert(is_stamp(settings, more[events.len() as int], path));
    }
}

/// A plain name leads to a file of that name in the directory of the backups.
proof fn lemma_kept_at(settings: AppConfigView, name: Seq<char>)
    requires
        is_plain_name(name),
    ensures
        file_name(kept_at(settings, name)) == Some(encode_utf8(name)),
        valid_utf8(encode_utf8(name)),
        decode_utf8(encode_utf8(name)) == name,
        backup_name(name) == Ok::<Seq<char>, ApiErrorView>(name),
{
    lemma_plain(name);
    law_backup_names_are_plain(name);
    lemma_plain_file_name(encode_utf8(name));
    lemma_join_name(settings.backups_dir, encode_utf8(name));
    vstd::utf8::encode_utf8_valid_utf8(name);
    vstd::utf8::encode_utf8_decode_utf8(name);
}

/// Whether `path` is where the backup of some time goes.
pub open spec fn is_backup_path(settings: AppConfigView, path: Seq<u8>) -> bool {
    exists|time: TimestampView|
        is_plain_name(backup_file_name(time)) && path == #[trigger] backup_path(settings, time)
}

/// Whether `to` is where a backup was made of the configuration as it was on the disk `start`.
spec fn is_copy(settings: AppConfigView, start: Disk, now: Disk, to: Seq<u8>) -> bool {
    let config = settings.sing_box_config_path;
    &&& is_backup_path(settings, to)
    &&& start.read(config) is Some
    &&& to != config ==> now.read(to) == start.read(config)
}

/// What holds while a backup is being made that found the files as on the disk `start`.
spec fn snapshot_kept(
    settings: AppConfigView,
    start: Disk,
    told: Seq<EventView>,
    action: ActionView,
    state: Snapshot<Seq<u8>>,
    now: Disk,
) -> bool {
    let config = settings.sing_box_config_path;
    &&& start.dirs.subset_of(now.dirs)
    &&& match state {
        Snapshot::CheckingConfig => {
            &&& action == (ActionView::CheckExists { path: config })
            &&& same_but(start, now, Set::empty())
            &&& start.read(config) is Some ==> now.holds(config)
        },
        Snapshot::CreatingDir => {
            &&& action == (ActionView::CreateDirs { path: settings.backups_dir })
            &&& same_but(start, now, Set::empty())
        },
        Snapshot::ReadingClock => {
            &&& action == ActionView::ReadClock
            &&& same_but(start, now, Set::empty())
            &&& now.dirs.contains(settings.backups_dir)
        },
        Snapshot::Copying { to } => {
            &&& action == (ActionView::CopyFile { from: config, to })
            &&& same_but(start, now, Set::empty())
            &&& now.dirs.contains(settings.backups_dir)
            &&& is_backup_path(settings, to)
            &&& stamps(settings, told).contains(to)
        },
        Snapshot::ReadingMetadata { of } => {
            &&& action == (ActionView::ReadMetadata { path: of })
            &&& same_but(start, now, set![of])
            &&& now.dirs.contains(settings.backups_dir)
            &&& is_copy(settings, start, now, of)
            &&& stamps(settings, told).contains(of)
        },
    }
}

/// What holds once a backup is made: it holds the configuration, it stands in the directory of the
/// backups, at the time that was told, and nothing else was changed.
pub open spec fn snapshot_done(
    settings: AppConfigView,
    start: Disk,
    told: Seq<EventView>,
    entry: FileEntryView,
    now: Disk,
) -> bool {
    let kept = kept_at(settings, entry.name);
    &&& holds_config(settings, start, now, entry)
    &&& same_but(start, now, set![kept])
    &&& stamps(settings, told).contains(kept)
    &&& start.dirs.subset_of(now.dirs)
    &&& now.dirs.contains(settings.backups_dir)
}

/// How many answers a backup takes at most from now on.
spec fn snapshot_left(state: Snapshot<Seq<u8>>) -> int {
    match state {
        Snapshot::CheckingConfig => 5,
        Snapshot::CreatingDir => 4,
        Snapshot::ReadingClock => 3,
        Snapshot::Copying { to } => 2,
        Snapshot::ReadingMetadata { of } => 1,
    }
}

/// A true answer keeps what holds while a backup is being made.
proof fn lemma_snapshot_step(
    settings: AppConfigView,
    start: Disk,
    told: Seq<EventView>,
    action: ActionView,
    state: Snapshot<Seq<u8>>,
    before: Disk,
    event: EventView,
    after: Disk,
)
    requires
        snapshot_kept(settings, start, told, action, state, before),
        truthful(before, action, event, after),
    ensures
        ({
            let told = told.push(event);
            match snapshot_next(settings, state, event) {
                Step::Perform { action, state: next } => {
                    &&& snapshot_kept(settings, start, told, action, next, after)
                    &&& snapshot_left(next) < snapshot_left(state)
                },
                Step::Finish { response } => snapshot_done(settings, start, told, response, after),
                Step::Fail { error } => {
                    &&& same_but(start, after, stamps(settings, told))
                    &&& start.dirs.subset_of(after.dirs)
                    &&& is_failure(event) || {
                        &&& state is CheckingConfig
                        &&& start.read(settings.sing_box_config_path) is None
                        &&& !before.holds(settings.sing_box_config_path)
                        &&& error == not_found(
                            "sing-box config not found: "@ + lossy_text(
                                settings.sing_box_config_path,
                            ),
                        )
                    }
                },
            }
        }),
{
    lemma_stamps_grow(settings, told, event);
    match state {
        Snapshot::ReadingClock => {
            if let EventView::Time(time) = event {
                let to = backup_path(settings, time);
                assert(is_stamp(settings, event, to));
                assert(is_backup_path(settings, to));
            }
        },
        Snapshot::ReadingMetadata { of } => {
            let time = choose|time: TimestampView|
                is_plain_name(backup_file_name(time)) && of == #[trigger] backup_path(
                    settings,
                    time,
                );
            lemma_kept_at(settings, backup_file_name(time));
            assert(of == kept_at(settings, backup_file_name(time)));
        },
        _ => {},
    }
}

/// Where a backup stands once it was given `events`.
pub open spec fn snapshot_after(
    settings: AppConfigView,
    events: Seq<EventView>,
) -> SnapshotStepView {
    after(
        snapshot_start(settings),
        |state: Snapshot<Seq<u8>>, event: EventView| snapshot_next(settings, state, event),
        events,
    )
}

/// Whether `events` are true answers to a backup that finds and leaves the disk as in `disks`.
pub open spec fn is_snapshot_run(
    settings: AppConfigView,
    events: Seq<EventView>,
    disks: Seq<Disk>,
) -> bool {
    is_run(
        snapshot_start(settings),
        |state: Snapshot<Seq<u8>>, event: EventView| snapshot_next(settings, state, event),
        events,
        disks,
    )
}

/// A backup that succeeds holds the configuration, under a name by which it can be restored, in the
/// directory of the backups, and leaves every other file as it was. One that does not succeed
/// changes no file but the one that was to become the backup. No directory goes away. Where no
/// operation fails and there is a configuration, the backup succeeds; where there is none, that is
/// what is told. It takes at most five operations.
pub proof fn law_backup_holds_the_config(
    settings: AppConfigView,
    events: Seq<EventView>,
    disks: Seq<Disk>,
)
    requires
        is_snapshot_run(settings, events, disks),
    ensures
        snapshot_after(settings, events) matches Step::Finish { response } ==> snapshot_done(
            settings,
            disks[0],
            events,
            response,
            disks.last(),
        ),
        same_but(disks[0], disks.last(), stamps(settings, events)),
        disks[0].dirs.subset_of(disks.last().dirs),
        no_failure(events) ==> (snapshot_after(settings, events) matches Step::Fail { error } ==> {
            &&& !disks[0].holds(settings.sing_box_config_path)
            &&& error == not_found(
                "sing-box config not found: "@ + lossy_text(settings.sing_box_config_path),
            )
        }),
        events.len() <= 5,
        events.len() == 5 ==> !(snapshot_after(settings, events) is Perform),
{
    let config = settings.sing_box_config_path;
    let start = disks[0];
    let next = |state: Snapshot<Seq<u8>>, event: EventView| snapshot_next(settings, state, event);
    let kept = |told: Seq<EventView>, step: SnapshotStepView, now: Disk|
        {
            &&& same_but(start, now, stamps(settings, told))
            &&& start.dirs.subset_of(now.dirs)
            &&& match step {
                Step::Perform { action, state } => {
                    &&& snapshot_kept(settings, start, told, action, state, now)
                    &&& state is CheckingConfig ==> now == start
                    &&& told.len() + snapshot_left(state) <= 5
                },
                Step::Finish { response } => {
                    &&& snapshot_done(settings, start, told, response, now)
                    &&& told.len() <= 5
                },
                Step::Fail { error } => {
                    &&& no_failure(told) ==> !start.holds(config) && error == not_found(
                        "sing-box config not found: "@ + lossy_text(config),
                    )
                    &&& told.len() <= 5
                },
            }
        };
    assert forall|
        told: Seq<EventView>,
        action: ActionView,
        state: Snapshot<Seq<u8>>,
        before: Disk,
        event: EventView,
        after: Disk,
    |
        kept(told, Step::Perform { action, state }, before) && #[trigger] truthful(
            before,
            action,
            event,
            after,
        ) implies #[trigger] kept(told.push(event), next(state, event), after) by {
        lemma_snapshot_step(settings, start, told, action, state, before, event, after);
        lemma_stamps_grow(settings, told, event);
        assert(told.push(event).last() == event);
        assert(told.push(event)[told.len() as int] == event);
    }
    lemma_run_keeps(snapshot_start(settings), next, events, disks, kept);
}

/// Whether the configuration as it was on the disk `start` is not lost: it still stands in its
/// place, or in a backup that was made since. A backup that was to take the very place of the
/// configuration is left aside.
pub open spec fn not_lost(
    settings: AppConfigView,
    start: Disk,
    told: Seq<EventView>,
    now: Disk,
) -> bool {
    let config = settings.sing_box_config_path;
    start.read(config) is Some && !stamps(settings, told).contains(config) ==> {
        ||| now.read(config) == start.read(config)
        ||| exists|kept: Seq<u8>| #[trigger]
            stamps(settings, told).contains(kept) && now.read(kept) == start.read(config)
    }
}

/// What holds once the configuration was backed up where there was one, and nothing else was
/// done yet.
spec fn backup_taken(
    settings: AppConfigView,
    start: Disk,
    told: Seq<EventView>,
    backup: Option<FileEntryView>,
    now: Disk,
) -> bool {
    match backup {
        Some(entry) => snapshot_done(settings, start, told, entry, now),
        None => {
            &&& start.read(settings.sing_box_config_path) is None
            &&& same_but(start, now, Set::empty())
            &&& start.dirs.subset_of(now.dirs)
        },
    }
}

/// Whether the directory of the configuration is there, if the path of the configuration names one.
pub open spec fn has_config_dir(settings: AppConfigView, disk: Disk) -> bool {
    parent(settings.sing_box_config_path) matches Some(dir) ==> disk.dirs.contains(dir)
}

/// What holds once the configuration was replaced by `contents`: there is a backup of the one
/// before exactly if there was one, the directories of both are there, every other file is as it
/// was, and no directory went away.
pub open spec fn replaced_by(
    settings: AppConfigView,
    start: Disk,
    contents: Seq<u8>,
    backup: Option<FileEntryView>,
    now: Disk,
) -> bool {
    let config = settings.sing_box_config_path;
    &&& now.read(config) == Some(contents)
    &&& has_config_dir(settings, now)
    &&& start.dirs.subset_of(now.dirs)
    &&& match backup {
        Some(entry) => {
            &&& holds_config(settings, start, now, entry)
            &&& now.dirs.contains(settings.backups_dir)
            &&& same_but(start, now, set![config, kept_at(settings, entry.name)])
        },
        None => {
            &&& start.read(config) is None
            &&& same_but(start, now, set![config])
        },
    }
}

/// Where an update to a configuration that is written as `contents` stands once it was given
/// `events`.
pub open spec fn update_after(
    settings: AppConfigView,
    contents: Result<Seq<u8>, ApiErrorView>,
    events: Seq<EventView>,
) -> UpdateStepView {
    after(
        update_start(settings),
        |state: UpdateView, event: EventView| update_next(settings, contents, state, event),
        events,
    )
}

/// Whether `events` are true answers to an update that finds and leaves the disk as in `disks`.
pub open spec fn is_update_run(
    settings: AppConfigView,
    contents: Result<Seq<u8>, ApiErrorView>,
    events: Seq<EventView>,
    disks: Seq<Disk>,
) -> bool {
    is_run(
        update_start(settings),
        |state: UpdateView, event: EventView| update_next(settings, contents, state, event),
        events,
        disks,
    )
}

/// How many answers an update takes at most from now on.
spec fn update_left(state: UpdateView) -> int {
    match state {
        UpdateView::CreatingDir { dir } => 8,
        UpdateView::CheckingConfig => 7,
        UpdateView::BackingUp { snapshot } => 1 + snapshot_left(snapshot),
        UpdateView::Writing { backup } => 1,
    }
}

/// What holds during and after an update.
spec fn update_kept(
    settings: AppConfigView,
    contents: Result<Seq<u8>, ApiErrorView>,
    start: Disk,
    told: Seq<EventView>,
    step: UpdateStepView,
    now: Disk,
) -> bool {
    let config = settings.sing_box_config_path;
    &&& same_but(start, now, stamps(settings, told).insert(config))
    &&& not_lost(settings, start, told, now)
    &&& start.dirs.subset_of(now.dirs)
    &&& told.len() <= 8
    &&& match step {
        Step::Perform { action, state } => {
            &&& told.len() + update_left(state) <= 8
            &&& match state {
                UpdateView::CreatingDir { dir } => {
                    &&& parent(config) == Some(dir)
                    &&& action == (ActionView::CreateDirs { path: dir })
                    &&& same_but(start, now, Set::empty())
                },
                UpdateView::CheckingConfig => {
                    &&& has_config_dir(settings, now)
                    &&& action == (ActionView::CheckExists { path: config })
                    &&& same_but(start, now, Set::empty())
                },
                UpdateView::BackingUp { snapshot } => {
                    &&& has_config_dir(settings, now)
                    &&& snapshot_kept(settings, start, told, action, snapshot, now)
                    &&& snapshot is CheckingConfig ==> now.holds(config)
                },
                UpdateView::Writing { backup } => {
                    &&& has_config_dir(settings, now)
                    &&& contents is Ok
                    &&& action == (ActionView::WriteFile { path: config, contents: contents->Ok_0 })
                    &&& backup_taken(settings, start, told, backup, now)
                },
            }
        },
        Step::Finish { response } => {
            &&& contents is Ok
            &&& response.path == lossy_text(config)
            &&& replaced_by(settings, start, contents->Ok_0, response.backup, now)
            &&& response.backup matches Some(entry) ==> stamps(settings, told).contains(
                kept_at(settings, entry.name),
            )
        },
        Step::Fail { error } => {
            no_failure(told) ==> contents == Err::<Seq<u8>, ApiErrorView>(error)
        },
    }
}

/// A true answer keeps what holds during an update.
proof fn lemma_update_step(
    settings: AppConfigView,
    contents: Result<Seq<u8>, ApiErrorView>,
    start: Disk,
    told: Seq<EventView>,
    action: ActionView,
    state: UpdateView,
    before: Disk,
    event: EventView,
    after: Disk,
)
    requires
        update_kept(settings, contents, start, told, Step::Perform { action, state }, before),
        truthful(before, action, event, after),
    ensures
        update_kept(
            settings,
            contents,
            start,
            told.push(event),
            update_next(settings, contents, state, event),
            after,
        ),
{
    let more = told.push(event);
    lemma_stamps_grow(settings, told, event);
    assert(more[told.len() as int] == event);
    match state {
        UpdateView::BackingUp { snapshot } => {
            lemma_snapshot_step(settings, start, told, action, snapshot, before, event, after);
        },
        UpdateView::Writing { backup } => {
            if let Some(entry) = backup {
                assert(stamps(settings, more).contains(kept_at(settings, entry.name)));
            }
        },
        _ => {},
    }
}

/// An update that succeeds leaves in place of the configuration exactly what it was given, makes
/// a backup of the configuration that was there if there was one, at the time that was told, and
/// changes no other file.
pub proof fn law_update_replaces_the_config(
    settings: AppConfigView,
    contents: Result<Seq<u8>, ApiErrorView>,
    events: Seq<EventView>,
    disks: Seq<Disk>,
)
    requires
        is_update_run(settings, contents, events, disks),
    ensures
        update_after(settings, contents, events) matches Step::Finish { response } ==> {
            &&& contents is Ok
            &&& response.path == lossy_text(settings.sing_box_config_path)
            &&& replaced_by(settings, disks[0], contents->Ok_0, response.backup, disks.last())
            &&& response.backup matches Some(entry) ==> stamps(settings, events).contains(
                kept_at(settings, entry.name),
            )
        },
{
    lemma_update_run(settings, contents, events, disks);
}

/// The configuration that an update was given is shown to whoever asks for it afterwards, as it
/// was printed and with a line end. The file is the one that `get_config` knows to be written for
/// this configuration, so that the JSON value is shown again as well.
pub proof fn law_update_is_shown(
    settings: AppConfigView,
    value: serde_json::Value,
    events: Seq<EventView>,
    disks: Seq<Disk>,
)
    requires
        is_update_run(settings, file_contents(json_pretty(value)), events, disks),
        update_after(settings, file_contents(json_pretty(value)), events) is Finish,
    ensures
        ({
            let config = settings.sing_box_config_path;
            let text = json_pretty(value)->Ok_0 + "\n"@;
            &&& json_pretty(value) is Ok
            &&& disks.last().read(config) == Some(encode_utf8(text))
            &&& valid_utf8(encode_utf8(text))
            &&& decode_utf8(encode_utf8(text)) == text
            &&& is_file_of(value, text)
            &&& config_answer(config, Ok(text)) == Ok::<ConfigFileResponseView, ApiErrorView>(
                shown_config(config, text, json_parse(text)),
            )
        }),
{
    lemma_update_run(settings, file_contents(json_pretty(value)), events, disks);
    law_written_config_is_read_back(json_pretty(value)->Ok_0);
}

/// Whatever happens during an update, be it that an operation fails or that the update is broken
/// off, the configuration that was there is not lost, no file but the configuration and its new
/// backup is changed, and no directory goes away.
pub proof fn law_update_loses_nothing(
    settings: AppConfigView,
    contents: Result<Seq<u8>, ApiErrorView>,
    events: Seq<EventView>,
    disks: Seq<Disk>,
)
    requires
        is_update_run(settings, contents, events, disks),
    ensures
        not_lost(settings, disks[0], events, disks.last()),
        same_but(
            disks[0],
            disks.last(),
            stamps(settings, events).insert(settings.sing_box_config_path),
        ),
        disks[0].dirs.subset_of(disks.last().dirs),
{
    lemma_update_run(settings, contents, events, disks);
}

/// An update takes at most eight operations. Where none of them fails, it fails only if the new
/// configuration cannot be written down, which `serialize_config` rules out.
pub proof fn law_update_succeeds(
    settings: AppConfigView,
    contents: Result<Seq<u8>, ApiErrorView>,
    events: Seq<EventView>,
    disks: Seq<Disk>,
)
    requires
        is_update_run(settings, contents, events, disks),
    ensures
        events.len() <= 8,
        events.len() == 8 ==> !(update_after(settings, contents, events) is Perform),
        no_failure(events) ==> (update_after(settings, contents, events) matches Step::Fail {
            error,
        } ==> contents == Err::<Seq<u8>, ApiErrorView>(error)),
        no_failure(events) && contents is Ok ==> !(update_after(settings, contents, events) is
            Fail),
{
    lemma_update_run(settings, contents, events, disks);
}

/// What holds during and after an update holds of every run.
proof fn lemma_update_run(
    settings: AppConfigView,
    contents: Result<Seq<u8>, ApiErrorView>,
    events: Seq<EventView>,
    disks: Seq<Disk>,
)
    requires
        is_update_run(settings, contents, events, disks),
    ensures
        update_kept(
            settings,
            contents,
            disks[0],
            events,
            update_after(settings, contents, events),
            disks.last(),
        ),
{
    let start = disks[0];
    let next = |state: UpdateView, event: EventView| update_next(settings, contents, state, event);
    let kept = |told: Seq<EventView>, step: UpdateStepView, now: Disk|
        update_kept(settings, contents, start, told, step, now);
    assert forall|
        told: Seq<EventView>,
        action: ActionView,
        state: UpdateView,
        before: Disk,
        event: EventView,
        after: Disk,
    |
        kept(told, Step::Perform { action, state }, before) && #[trigger] truthful(
            before,
            action,
            event,
            after,
        ) implies #[trigger] kept(told.push(event), next(state, event), after) by {
        lemma_update_step(settings, contents, start, told, action, state, before, event, after);
    }
    lemma_run_keeps(update_start(settings), next, events, disks, kept);
}

/// Where a restore from the backup with the given name stands once it was given `events`.
pub open spec fn restore_after(
    settings: AppConfigView,
    name: Seq<char>,
    events: Seq<EventView>,
) -> RestoreStepView {
    after(
        restore_start(settings, name),
        |state: RestoreView, event: EventView| restore_next(settings, state, event),
        events,
    )
}

/// Whether `events` are true answers to a restore from the backup with the given name that finds
/// and leaves the disk as in `disks`.
pub open spec fn is_restore_run(
    settings: AppConfigView,
    name: Seq<char>,
    events: Seq<EventView>,
    disks: Seq<Disk>,
) -> bool {
    is_run(
        restore_start(settings, name),
        |state: RestoreView, event: EventView| restore_next(settings, state, event),
        events,
        disks,
    )
}

/// What holds once the configuration was restored from the backup with the given name: it is what
/// the backup held, and the backup still holds it. A backup of the configuration that was there
/// before which takes the very place of the restored one, because both bear the same time, is left
/// aside.
pub open spec fn restored(
    settings: AppConfigView,
    name: Seq<char>,
    start: Disk,
    previous: Option<FileEntryView>,
    now: Disk,
) -> bool {
    let config = settings.sing_box_config_path;
    let kept = kept_at(settings, name);
    &&& now.read(config) is Some
    &&& now.read(kept) is Some
    &&& replaced_by(settings, start, now.read(config)->0, previous, now)
    &&& (previous matches Some(entry) ==> kept_at(settings, entry.name) != kept) ==> {
        &&& start.read(kept) == now.read(config)
        &&& start.read(kept) == now.read(kept)
    }
}

/// How many answers a restore takes at most from now on.
spec fn restore_left(stage: RestoreStageView) -> int {
    match stage {
        RestoreStageView::CheckingBackup => 11,
        RestoreStageView::CheckingConfig => 10,
        RestoreStageView::BackingUp { snapshot } => 4 + snapshot_left(snapshot),
        RestoreStageView::CreatingDir { dir, previous } => 4,
        RestoreStageView::Reading { previous } => 3,
        RestoreStageView::Writing { previous } => 2,
        RestoreStageView::ReadingMetadata { previous } => 1,
    }
}

/// What holds during and after a restore.
spec fn restore_kept(
    settings: AppConfigView,
    name: Seq<char>,
    start: Disk,
    told: Seq<EventView>,
    step: RestoreStepView,
    now: Disk,
) -> bool {
    let config = settings.sing_box_config_path;
    let kept = kept_at(settings, name);
    &&& same_but(start, now, stamps(settings, told).insert(config))
    &&& not_lost(settings, start, told, now)
    &&& start.dirs.subset_of(now.dirs)
    &&& told.len() <= 11
    &&& match step {
        Step::Perform { action, state } => {
            &&& is_plain_name(name)
            &&& state.backup == kept
            &&& told.len() + restore_left(state.stage) <= 11
            &&& match state.stage {
                RestoreStageView::CheckingBackup => {
                    &&& action == (ActionView::CheckExists { path: kept })
                    &&& now == start
                },
                RestoreStageView::CheckingConfig => {
                    &&& action == (ActionView::CheckExists { path: config })
                    &&& now == start
                    &&& start.holds(kept)
                },
                RestoreStageView::BackingUp { snapshot } => {
                    &&& snapshot_kept(settings, start, told, action, snapshot, now)
                    &&& snapshot is CheckingConfig ==> now.holds(config)
                    &&& start.holds(kept)
                },
                RestoreStageView::CreatingDir { dir, previous } => {
                    &&& parent(config) == Some(dir)
                    &&& action == (ActionView::CreateDirs { path: dir })
                    &&& backup_taken(settings, start, told, previous, now)
                    &&& start.holds(kept)
                },
                RestoreStageView::Reading { previous } => {
                    &&& has_config_dir(settings, now)
                    &&& action == (ActionView::ReadFile { path: kept })
                    &&& backup_taken(settings, start, told, previous, now)
                    &&& start.holds(kept)
                },
                RestoreStageView::Writing { previous } => {
                    &&& has_config_dir(settings, now)
                    &&& action is WriteFile
                    &&& action->WriteFile_path == config
                    &&& now.read(kept) == Some(action->WriteFile_contents)
                    &&& backup_taken(settings, start, told, previous, now)
                    &&& start.holds(kept)
                },
                RestoreStageView::ReadingMetadata { previous } => {
                    &&& action == (ActionView::ReadMetadata { path: kept })
                    &&& restored(settings, name, start, previous, now)
                    &&& previous matches Some(entry) ==> stamps(settings, told).contains(
                        kept_at(settings, entry.name),
                    )
                    &&& start.holds(kept)
                },
            }
        },
        Step::Finish { response } => {
            &&& response.restored_from.name == name
            &&& response.restored_from.path == lossy_text(kept)
            &&& response.restored_from.size_bytes == now.read(kept)->0.len()
            &&& restored(settings, name, start, response.previous_config_backup, now)
            &&& response.previous_config_backup matches Some(entry) ==> stamps(
                settings,
                told,
            ).contains(kept_at(settings, entry.name))
            &&& start.holds(kept)
        },
        Step::Fail { error } => {
            ||| !no_failure(told)
            ||| backup_name(name) == Err::<Seq<char>, ApiErrorView>(error)
            ||| {
                &&& !start.holds(kept)
                &&& now == start
                &&& error == not_found("backup not found: "@ + lossy_text(kept))
            }
        },
    }
}

/// A true answer keeps what holds during a restore.
#[verifier::spinoff_prover]
#[verifier::rlimit(60)]
proof fn lemma_restore_step(
    settings: AppConfigView,
    name: Seq<char>,
    start: Disk,
    told: Seq<EventView>,
    action: ActionView,
    state: RestoreView,
    before: Disk,
    event: EventView,
    after: Disk,
)
    requires
        restore_kept(settings, name, start, told, Step::Perform { action, state }, before),
        truthful(before, action, event, after),
    ensures
        restore_kept(
            settings,
            name,
            start,
            told.push(event),
            restore_next(settings, state, event),
            after,
        ),
{
    let more = told.push(event);
    lemma_stamps_grow(settings, told, event);
    lemma_kept_at(settings, name);
    assert(more[told.len() as int] == event);
    match state.stage {
        RestoreStageView::BackingUp { snapshot } => {
            lemma_snapshot_step(settings, start, told, action, snapshot, before, event, after);
        },
        RestoreStageView::Writing { previous } => {
            if let Some(entry) = previous {
                assert(stamps(settings, more).contains(kept_at(settings, entry.name)));
            }
        },
        _ => {},
    }
}

/// What holds during and after a restore holds of every run.
proof fn lemma_restore_run(
    settings: AppConfigView,
    name: Seq<char>,
    events: Seq<EventView>,
    disks: Seq<Disk>,
)
    requires
        is_restore_run(settings, name, events, disks),
    ensures
        restore_kept(
            settings,
            name,
            disks[0],
            events,
            restore_after(settings, name, events),
            disks.last(),
        ),
{
    let start = disks[0];
    let next = |state: RestoreView, event: EventView| restore_next(settings, state, event);
    let kept = |told: Seq<EventView>, step: RestoreStepView, now: Disk|
        restore_kept(settings, name, start, told, step, now);
    law_backup_names_are_plain(name);
    assert forall|
        told: Seq<EventView>,
        action: ActionView,
        state: RestoreView,
        before: Disk,
        event: EventView,
        after: Disk,
    |
        kept(told, Step::Perform { action, state }, before) && #[trigger] truthful(
            before,
            action,
            event,
            after,
        ) implies #[trigger] kept(told.push(event), next(state, event), after) by {
        lemma_restore_step(settings, name, start, told, action, state, before, event, after);
    }
    lemma_run_keeps(restore_start(settings, name), next, events, disks, kept);
}

/// A restore that succeeds leaves in place of the configuration exactly what the backup held,
/// makes a backup of the configuration that was there if there was one, at the time that was told,
/// and changes no other file.
pub proof fn law_restore_brings_the_backup_back(
    settings: AppConfigView,
    name: Seq<char>,
    events: Seq<EventView>,
    disks: Seq<Disk>,
)
    requires
        is_restore_run(settings, name, events, disks),
    ensures
        restore_after(settings, name, events) matches Step::Finish { response } ==> {
            &&& response.restored_from.name == name
            &&& response.restored_from.path == lossy_text(kept_at(settings, name))
            &&& response.restored_from.size_bytes == disks.last().read(
                kept_at(settings, name),
            )->0.len()
            &&& restored(
                settings,
                name,
                disks[0],
                response.previous_config_backup,
                disks.last(),
            )
            &&& response.previous_config_backup matches Some(entry) ==> stamps(
                settings,
                events,
            ).contains(kept_at(settings, entry.name))
        },
{
    lemma_restore_run(settings, name, events, disks);
}

/// Whatever happens during a restore, be it that an operation fails or that the restore is broken
/// off, the configuration that was there is not lost, no file but the configuration and its new
/// backup is changed, and no directory goes away.
pub proof fn law_restore_loses_nothing(
    settings: AppConfigView,
    name: Seq<char>,
    events: Seq<EventView>,
    disks: Seq<Disk>,
)
    requires
        is_restore_run(settings, name, events, disks),
    ensures
        not_lost(settings, disks[0], events, disks.last()),
        same_but(
            disks[0],
            disks.last(),
            stamps(settings, events).insert(settings.sing_box_config_path),
        ),
        disks[0].dirs.subset_of(disks.last().dirs),
{
    lemma_restore_run(settings, name, events, disks);
}

/// A restore takes at most eleven operations. Where none of them fails, it fails only if the name
/// is refused, or if there is no such backup: then that is what is told, and nothing is changed.
pub proof fn law_restore_succeeds(
    settings: AppConfigView,
    name: Seq<char>,
    events: Seq<EventView>,
    disks: Seq<Disk>,
)
    requires
        is_restore_run(settings, name, events, disks),
    ensures
        events.len() <= 11,
        events.len() == 11 ==> !(restore_after(settings, name, events) is Perform),
        no_failure(events) ==> (restore_after(settings, name, events) matches Step::Fail { error }
            ==> {
            ||| backup_name(name) == Err::<Seq<char>, ApiErrorView>(error)
            ||| {
                &&& !disks[0].holds(kept_at(settings, name))
                &&& disks.last() == disks[0]
                &&& error == not_found("backup not found: "@ + lossy_text(kept_at(settings, name)))
            }
        }),
{
    lemma_restore_run(settings, name, events, disks);
}

/// A restore from a backup that does not exist never succeeds.
pub proof fn law_missing_backup_is_not_restored(
    settings: AppConfigView,
    name: Seq<char>,
    events: Seq<EventView>,
    disks: Seq<Disk>,
)
    requires
        is_restore_run(settings, name, events, disks),
        !disks[0].holds(kept_at(settings, name)),
    ensures
        !(restore_after(settings, name, events) is Finish),
{
    lemma_restore_run(settings, name, events, disks);
}

/// A name that leads out of the directory of the backups is refused before anything is asked of
/// the surroundings.
pub proof fn law_restore_refuses_other_paths(settings: AppConfigView, name: Seq<char>)
    requires
        !is_plain_name(name),
    ensures
        restore_start(settings, name) is Fail,
        backup_name(name) is Err,
        restore_start(settings, name)->error == backup_name(name)->Err_0,
{
    law_backup_names_are_plain(name);
}

/// A piece of work on the configuration.
pub enum Job {
    Backup,
    /// An update to a configuration that is written as `contents`, unless it cannot be.
    Update { contents: Result<Seq<u8>, ApiErrorView> },
    /// A restore from the backup with the given name.
    Restore { name: Seq<char> },
}

/// A run of a piece of work, finished or broken off.
pub struct Passage {
    pub job: Job,
    /// The answers it was given.
    pub events: Seq<EventView>,
    /// The disk before, between and after the operations.
    pub disks: Seq<Disk>,
}

/// Whether a run was given true answers.
pub open spec fn is_passage(settings: AppConfigView, passage: Passage) -> bool {
    match passage.job {
        Job::Backup => is_snapshot_run(settings, passage.events, passage.disks),
        Job::Update { contents } => is_update_run(
            settings,
            contents,
            passage.events,
            passage.disks,
        ),
        Job::Restore { name } => is_restore_run(settings, name, passage.events, passage.disks),
    }
}

/// The backup of the configuration that a run tells of, if it succeeded and made one.
pub open spec fn backup_made(settings: AppConfigView, passage: Passage) -> Option<FileEntryView> {
    match passage.job {
        Job::Backup => match snapshot_after(settings, passage.events) {
            Step::Finish { response } => Some(response),
            _ => None,
        },
        Job::Update { contents } => match update_after(settings, contents, passage.events) {
            Step::Finish { response } => response.backup,
            _ => None,
        },
        Job::Restore { name } => match restore_after(settings, name, passage.events) {
            Step::Finish { response } => response.previous_config_backup,
            _ => None,
        },
    }
}

/// The disk after runs that follow each other and find the disk as `from`.
pub open spec fn disk_after(from: Disk, passages: Seq<Passage>) -> Disk {
    if passages.len() == 0 {
        from
    } else {
        passages.last().disks.last()
    }
}

/// Whether runs follow each other, from the disk `from` on, and were given true answers.
pub open spec fn is_history(settings: AppConfigView, from: Disk, passages: Seq<Passage>) -> bool {
    forall|i: int|
        0 <= i < passages.len() ==> {
            &&& is_passage(settings, #[trigger] passages[i])
            &&& passages[i].disks[0] == disk_after(from, passages.take(i))
        }
}

/// Whether no run made or was to make a backup at `path`.
pub open spec fn leaves_alone(
    settings: AppConfigView,
    passages: Seq<Passage>,
    path: Seq<u8>,
) -> bool {
    forall|i: int|
        0 <= i < passages.len() ==> !stamps(settings, (#[trigger] passages[i]).events).contains(
            path,
        )
}

/// What one run does not work on, it leaves as it was.
proof fn lemma_passage_keeps(settings: AppConfigView, passage: Passage, path: Seq<u8>)
    requires
        is_passage(settings, passage),
        path != settings.sing_box_config_path,
        !stamps(settings, passage.events).contains(path),
    ensures
        passage.disks.last().read(path) == passage.disks[0].read(path),
{
    match passage.job {
        Job::Backup => law_backup_holds_the_config(settings, passage.events, passage.disks),
        Job::Update { contents } => law_update_loses_nothing(
            settings,
            contents,
            passage.events,
            passage.disks,
        ),
        Job::Restore { name } => law_restore_loses_nothing(
            settings,
            name,
            passage.events,
            passage.disks,
        ),
    }
}

/// Backups outlast later work: whatever backups, updates and restores follow, finished or broken
/// off, a file other than the configuration is left as it was, unless one of them makes a backup
/// in its very place.
pub proof fn law_backups_outlast_later_work(
    settings: AppConfigView,
    from: Disk,
    passages: Seq<Passage>,
    path: Seq<u8>,
)
    requires
        is_history(settings, from, passages),
        leaves_alone(settings, passages, path),
        path != settings.sing_box_config_path,
    ensures
        disk_after(from, passages).read(path) == from.read(path),
    decreases passages.len(),
{
    if passages.len() > 0 {
        let n = passages.len() - 1;
        let front = passages.take(n);
        assert forall|i: int| 0 <= i < front.len() implies {
            &&& is_passage(settings, #[trigger] front[i])
            &&& front[i].disks[0] == disk_after(from, front.take(i))
        } by {
            assert(front[i] == passages[i]);
            assert(front.take(i) =~= passages.take(i));
        }
        assert forall|i: int| 0 <= i < front.len() implies !stamps(
            settings,
            (#[trigger] front[i]).events,
        ).contains(path) by {
            assert(front[i] == passages[i]);
        }
        law_backups_outlast_later_work(settings, from, front, path);
        lemma_passage_keeps(settings, passages[n], path);
    }
}

/// A restore brings back the configuration of any backup that was made, whatever came since: if a
/// backup, an update or a restore told of a backup of the configuration, and then backups, updates
/// and restores followed, finished or broken off, a restore by the name that was told leaves the
/// configuration as it was when the backup was made. Times at which a backup would take the place
/// of the configuration or of the restored backup are left aside.
pub proof fn law_restore_brings_any_backup_back(
    settings: AppConfigView,
    first: Passage,
    entry: FileEntryView,
    later: Seq<Passage>,
    events: Seq<EventView>,
    disks: Seq<Disk>,
)
    requires
        is_passage(settings, first),
        backup_made(settings, first) == Some(entry),
        is_history(settings, first.disks.last(), later),
        is_restore_run(settings, entry.name, events, disks),
        restore_after(settings, entry.name, events) is Finish,
        disks[0] == disk_after(first.disks.last(), later),
        kept_at(settings, entry.name) != settings.sing_box_config_path,
        leaves_alone(settings, later, kept_at(settings, entry.name)),
        !stamps(settings, events).contains(kept_at(settings, entry.name)),
    ensures
        disks.last().read(settings.sing_box_config_path) == first.disks[0].read(
            settings.sing_box_config_path,
        ),
{
    let kept = kept_at(settings, entry.name);
    lemma_backup_made(settings, first, entry);
    law_backups_outlast_later_work(settings, first.disks.last(), later, kept);
    law_restore_brings_the_backup_back(settings, entry.name, events, disks);
}

/// A restore undoes an update: the backup that an update made of the configuration, restored by
/// the name that the update told, brings the configuration back as it was. Times at which a
/// backup would take the place of the configuration or of the restored backup are left aside.
pub proof fn law_restore_undoes_update(
    settings: AppConfigView,
    contents: Result<Seq<u8>, ApiErrorView>,
    entry: FileEntryView,
    update_events: Seq<EventView>,
    update_disks: Seq<Disk>,
    restore_events: Seq<EventView>,
    restore_disks: Seq<Disk>,
)
    requires
        is_update_run(settings, contents, update_events, update_disks),
        update_after(settings, contents, update_events) is Finish,
        update_after(settings, contents, update_events)->response.backup == Some(entry),
        is_restore_run(settings, entry.name, restore_events, restore_disks),
        restore_after(settings, entry.name, restore_events) is Finish,
        restore_disks[0] == update_disks.last(),
        kept_at(settings, entry.name) != settings.sing_box_config_path,
        !stamps(settings, restore_events).contains(kept_at(settings, entry.name)),
    ensures
        restore_disks.last().read(settings.sing_box_config_path) == update_disks[0].read(
            settings.sing_box_config_path,
        ),
{
    law_restore_brings_any_backup_back(
        settings,
        Passage { job: Job::Update { contents }, events: update_events, disks: update_disks },
        entry,
        Seq::empty(),
        restore_events,
        restore_disks,
    );
}

/// Whether a step does not ask for a file to be written.
pub open spec fn writes_no_file<S, R>(step: Step<ActionView, S, R, ApiErrorView>) -> bool {
    step matches Step::Perform { action, state } ==> !(action is WriteFile)
}

/// As long as an update has not come to write the configuration, the configuration stands in its
/// place: no file but the new backup was changed. It is so in particular where the backup fails.
pub proof fn law_update_keeps_the_config_until_it_writes(
    settings: AppConfigView,
    contents: Result<Seq<u8>, ApiErrorView>,
    events: Seq<EventView>,
    disks: Seq<Disk>,
)
    requires
        is_update_run(settings, contents, events, disks),
        forall|i: int|
            0 <= i < events.len() ==> writes_no_file(
                #[trigger] update_after(settings, contents, events.take(i)),
            ),
    ensures
        same_but(disks[0], disks.last(), stamps(settings, events)),
{
    let start = disks[0];
    let next = |state: UpdateView, event: EventView| update_next(settings, contents, state, event);
    let kept = |told: Seq<EventView>, step: UpdateStepView, now: Disk|
        {
            &&& update_kept(settings, contents, start, told, step, now)
            &&& step == update_after(settings, contents, told)
            &&& (forall|i: int|
                0 <= i < told.len() ==> writes_no_file(
                    #[trigger] update_after(settings, contents, told.take(i)),
                )) ==> same_but(start, now, stamps(settings, told))
        };
    assert forall|
        told: Seq<EventView>,
        action: ActionView,
        state: UpdateView,
        before: Disk,
        event: EventView,
        after: Disk,
    |
        kept(told, Step::Perform { action, state }, before) && #[trigger] truthful(
            before,
            action,
            event,
            after,
        ) implies #[trigger] kept(told.push(event), next(state, event), after) by {
        let more = told.push(event);
        lemma_update_step(settings, contents, start, told, action, state, before, event, after);
        lemma_stamps_grow(settings, told, event);
        assert(more.drop_last() =~= told);
        if forall|i: int|
            0 <= i < more.len() ==> writes_no_file(
                #[trigger] update_after(settings, contents, more.take(i)),
            ) {
            assert forall|i: int| 0 <= i < told.len() implies writes_no_file(
                #[trigger] update_after(settings, contents, told.take(i)),
            ) by {
                assert(more.take(i) =~= told.take(i));
                assert(writes_no_file(update_after(settings, contents, more.take(i))));
            }
            assert(more.take(told.len() as int) =~= told);
            assert(writes_no_file(update_after(settings, contents, more.take(told.len() as int))));
            assert(!(action is WriteFile));
        }
    }
    lemma_run_keeps(update_start(settings), next, events, disks, kept);
}

/// As long as a restore has not come to write the configuration, the configuration stands in its
/// place: no file but the new backup was changed. It is so in particular where the backup fails.
pub proof fn law_restore_keeps_the_config_until_it_writes(
    settings: AppConfigView,
    name: Seq<char>,
    events: Seq<EventView>,
    disks: Seq<Disk>,
)
    requires
        is_restore_run(settings, name, events, disks),
        forall|i: int|
            0 <= i < events.len() ==> writes_no_file(
                #[trigger] restore_after(settings, name, events.take(i)),
            ),
    ensures
        same_but(disks[0], disks.last(), stamps(settings, events)),
{
    let start = disks[0];
    let next = |state: RestoreView, event: EventView| restore_next(settings, state, event);
    let kept = |told: Seq<EventView>, step: RestoreStepView, now: Disk|
        {
            &&& restore_kept(settings, name, start, told, step, now)
            &&& step == restore_after(settings, name, told)
            &&& (forall|i: int|
                0 <= i < told.len() ==> writes_no_file(
                    #[trigger] restore_after(settings, name, told.take(i)),
                )) ==> same_but(start, now, stamps(settings, told))
        };
    law_backup_names_are_plain(name);
    assert forall|
        told: Seq<EventView>,
        action: ActionView,
        state: RestoreView,
        before: Disk,
        event: EventView,
        after: Disk,
    |
        kept(told, Step::Perform { action, state }, before) && #[trigger] truthful(
            before,
            action,
            event,
            after,
        ) implies #[trigger] kept(told.push(event), next(state, event), after) by {
        let more = told.push(event);
        lemma_restore_step(settings, name, start, told, action, state, before, event, after);
        lemma_stamps_grow(settings, told, event);
        assert(more.drop_last() =~= told);
        if forall|i: int|
            0 <= i < more.len() ==> writes_no_file(
                #[trigger] restore_after(settings, name, more.take(i)),
            ) {
            assert forall|i: int| 0 <= i < told.len() implies writes_no_file(
                #[trigger] restore_after(settings, name, told.take(i)),
            ) by {
                assert(more.take(i) =~= told.take(i));
                assert(writes_no_file(restore_after(settings, name, more.take(i))));
            }
            assert(more.take(told.len() as int) =~= told);
            assert(writes_no_file(restore_after(settings, name, more.take(told.len() as int))));
            assert(!(action is WriteFile));
        }
    }
    lemma_run_keeps(restore_start(settings, name), next, events, disks, kept);
}

/// Whether what is told at one time and at another lies in different milliseconds.
pub open spec fn at_other_times(a: Seq<EventView>, b: Seq<EventView>) -> bool {
    forall|i: int, j: int|
        0 <= i < a.len() && 0 <= j < b.len() ==> ((#[trigger] a[i]) matches EventView::Time(s)
            ==> ((#[trigger] b[j]) matches EventView::Time(t) ==> !same_millisecond(s, t)))
}

/// The times that are told in a run have names of their own for backups.
proof fn lemma_run_times<S, R>(
    first: Step<ActionView, S, R, ApiErrorView>,
    next: spec_fn(S, EventView) -> Step<ActionView, S, R, ApiErrorView>,
    events: Seq<EventView>,
    disks: Seq<Disk>,
)
    requires
        is_run(first, next, events, disks),
    ensures
        forall|i: int|
            0 <= i < events.len() ==> ((#[trigger] events[i]) matches EventView::Time(time)
                ==> has_own_name(time)),
{
    assert forall|i: int| 0 <= i < events.len() implies ((#[trigger] events[i]) matches
        EventView::Time(time) ==> has_own_name(time)) by {
        let step = after(first, next, events.take(i));
        assert(step is Perform);
    }
}

/// The times that are told in a run of any work have names of their own for backups.
proof fn lemma_passage_times(settings: AppConfigView, passage: Passage)
    requires
        is_passage(settings, passage),
    ensures
        forall|i: int|
            0 <= i < passage.events.len() ==> ((#[trigger] passage.events[i]) matches
                EventView::Time(time) ==> has_own_name(time)),
{
    match passage.job {
        Job::Backup => lemma_run_times(
            snapshot_start(settings),
            |state: Snapshot<Seq<u8>>, event: EventView| snapshot_next(settings, state, event),
            passage.events,
            passage.disks,
        ),
        Job::Update { contents } => lemma_run_times(
            update_start(settings),
            |state: UpdateView, event: EventView| update_next(settings, contents, state, event),
            passage.events,
            passage.disks,
        ),
        Job::Restore { name } => lemma_run_times(
            restore_start(settings, name),
            |state: RestoreView, event: EventView| restore_next(settings, state, event),
            passage.events,
            passage.disks,
        ),
    }
}

/// What is known of a backup that was made: it holds the configuration, at a time that was told.
proof fn lemma_backup_made(settings: AppConfigView, passage: Passage, entry: FileEntryView)
    requires
        is_passage(settings, passage),
        backup_made(settings, passage) == Some(entry),
    ensures
        holds_config(settings, passage.disks[0], passage.disks.last(), entry),
        stamps(settings, passage.events).contains(kept_at(settings, entry.name)),
        passage.disks.last().dirs.contains(settings.backups_dir),
{
    match passage.job {
        Job::Backup => law_backup_holds_the_config(settings, passage.events, passage.disks),
        Job::Update { contents } => law_update_replaces_the_config(
            settings,
            contents,
            passage.events,
            passage.disks,
        ),
        Job::Restore { name } => law_restore_brings_the_backup_back(
            settings,
            name,
            passage.events,
            passage.disks,
        ),
    }
}

/// Backups of different times stand in different places: a run in which the clock reads no time in
/// the millisecond of a backup makes no backup in the place of that one.
pub proof fn law_backups_of_other_times_stand_elsewhere(
    settings: AppConfigView,
    first: Passage,
    entry: FileEntryView,
    other: Passage,
)
    requires
        is_passage(settings, first),
        backup_made(settings, first) == Some(entry),
        is_passage(settings, other),
        at_other_times(first.events, other.events),
    ensures
        !stamps(settings, other.events).contains(kept_at(settings, entry.name)),
{
    let kept = kept_at(settings, entry.name);
    lemma_backup_made(settings, first, entry);
    lemma_passage_times(settings, first);
    lemma_passage_times(settings, other);
    if stamps(settings, other.events).contains(kept) {
        let i = choose|i: int|
            0 <= i < first.events.len() && is_stamp(settings, #[trigger] first.events[i], kept);
        let j = choose|j: int|
            0 <= j < other.events.len() && is_stamp(settings, #[trigger] other.events[j], kept);
        let s = first.events[i]->Time_0;
        let t = other.events[j]->Time_0;
        assert(first.events[i] == EventView::Time(s));
        assert(other.events[j] == EventView::Time(t));
        lemma_kept_at(settings, backup_file_name(s));
        lemma_kept_at(settings, backup_file_name(t));
        lemma_encoding_is_injective(backup_file_name(s), backup_file_name(t));
        assert(same_millisecond(s, t));
    }
}

/// A restore brings back the configuration of any backup that was made, whatever came since, as
/// long as the clock reads no time in the millisecond of that backup again. A time at which the
/// backup takes the place of the configuration is left aside.
pub proof fn law_restore_at_another_time_brings_any_backup_back(
    settings: AppConfigView,
    first: Passage,
    entry: FileEntryView,
    later: Seq<Passage>,
    events: Seq<EventView>,
    disks: Seq<Disk>,
)
    requires
        is_passage(settings, first),
        backup_made(settings, first) == Some(entry),
        is_history(settings, first.disks.last(), later),
        is_restore_run(settings, entry.name, events, disks),
        restore_after(settings, entry.name, events) is Finish,
        disks[0] == disk_after(first.disks.last(), later),
        kept_at(settings, entry.name) != settings.sing_box_config_path,
        forall|i: int|
            0 <= i < later.len() ==> at_other_times(first.events, (#[trigger] later[i]).events),
        at_other_times(first.events, events),
    ensures
        disks.last().read(settings.sing_box_config_path) == first.disks[0].read(
            settings.sing_box_config_path,
        ),
{
    let kept = kept_at(settings, entry.name);
    assert forall|i: int| 0 <= i < later.len() implies !stamps(
        settings,
        (#[trigger] later[i]).events,
    ).contains(kept) by {
        law_backups_of_other_times_stand_elsewhere(settings, first, entry, later[i]);
    }
    law_backups_of_other_times_stand_elsewhere(
        settings,
        first,
        entry,
        Passage { job: Job::Restore { name: entry.name }, events, disks },
    );
    law_restore_brings_any_backup_back(settings, first, entry, later, events, disks);
}

/// Later work takes no directory away.
proof fn lemma_dirs_outlast_later_work(
    settings: AppConfigView,
    from: Disk,
    passages: Seq<Passage>,
)
    requires
        is_history(settings, from, passages),
    ensures
        from.dirs.subset_of(disk_after(from, passages).dirs),
    decreases passages.len(),
{
    if passages.len() > 0 {
        let n = passages.len() - 1;
        let front = passages.take(n);
        assert forall|i: int| 0 <= i < front.len() implies {
            &&& is_passage(settings, #[trigger] front[i])
            &&& front[i].disks[0] == disk_after(from, front.take(i))
        } by {
            assert(front[i] == passages[i]);
            assert(front.take(i) =~= passages.take(i));
        }
        lemma_dirs_outlast_later_work(settings, from, front);
        let last = passages[n];
        assert(is_passage(settings, last));
        match last.job {
            Job::Backup => law_backup_holds_the_config(settings, last.events, last.disks),
            Job::Update { contents } => law_update_loses_nothing(
                settings,
                contents,
                last.events,
                last.disks,
            ),
            Job::Restore { name } => law_restore_loses_nothing(
                settings,
                name,
                last.events,
                last.disks,
            ),
        }
    }
}

/// A backup that was made is in the list of backups, whatever backups, updates and restores came
/// since, and the list tells of it the name, the path and the size that were told when it was
/// made. A backup that takes the place of the configuration, or whose place is taken by a later
/// one, is left aside.
pub proof fn law_backup_is_listed(
    settings: AppConfigView,
    first: Passage,
    entry: FileEntryView,
    later: Seq<Passage>,
    events: Seq<EventView>,
    disks: Seq<Disk>,
)
    requires
        is_passage(settings, first),
        backup_made(settings, first) == Some(entry),
        is_history(settings, first.disks.last(), later),
        is_list_run(ListKind::Backups, settings.backups_dir, events, disks),
        list_after(ListKind::Backups, settings.backups_dir, events) is Finish,
        disks[0] == disk_after(first.disks.last(), later),
        kept_at(settings, entry.name) != settings.sing_box_config_path,
        leaves_alone(settings, later, kept_at(settings, entry.name)),
    ensures
        is_in_list(
            list_after(ListKind::Backups, settings.backups_dir, events)->response,
            entry,
        ),
{
    let dir = settings.backups_dir;
    let kept = kept_at(settings, entry.name);
    lemma_backup_made(settings, first, entry);
    law_backups_outlast_later_work(settings, first.disks.last(), later, kept);
    lemma_dirs_outlast_later_work(settings, first.disks.last(), later);
    lemma_plain_name_is_in(dir, entry.name);
    assert(disks[0].read(kept) == first.disks[0].read(settings.sing_box_config_path));
    assert(is_wanted(disks[0], ListKind::Backups, dir, kept));
    law_file_is_in_the_list(ListKind::Backups, dir, kept, events, disks);
    let list = list_after(ListKind::Backups, dir, events)->response;
    let i = choose|i: int|
        0 <= i < list.len() && tells_of(disks[0], kept, #[trigger] list[i]);
    assert(is_same_file(list[i], entry));
}

} // verus!
