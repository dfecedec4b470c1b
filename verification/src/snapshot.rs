//! Backups of the managed configuration.
use crate::clock::{backup_file_name, has_own_name, TimestampView};
use crate::config::{AppConfig, AppConfigView};
use crate::error::{internal, not_found, ApiError, ApiErrorView};
use crate::io::{
    describe_failure, failure_text, report_unexpected, unexpected, Action, ActionView, Event,
    EventView, Step,
};
use crate::listing::{
    candidate, candidate_from_path, metadata_failure, report_metadata_failure, FileEntry,
    FileEntryView, ListKind,
};
use crate::path::{join, UnixPath};
use crate::text::concat2;
use crate::utf8::lossy_text;
use vstd::prelude::*;
use vstd::utf8::encode_utf8;

verus! {

/// How far a backup has got.
#[derive(Debug)]
pub enum Snapshot<P> {
    /// Whether there is a configuration is being checked.
    CheckingConfig,
    /// The directory of the backups is being created.
    CreatingDir,
    /// The clock is being read.
    ReadingClock,
    /// The configuration is being copied.
    Copying { to: P },
    /// What is known of the backup is being read.
    ReadingMetadata { of: P },
}

impl<P: View> View for Snapshot<P> {
    type V = Snapshot<P::V>;

    open spec fn view(&self) -> Snapshot<P::V> {
        match *self {
            Snapshot::CheckingConfig => Snapshot::CheckingConfig,
            Snapshot::CreatingDir => Snapshot::CreatingDir,
            Snapshot::ReadingClock => Snapshot::ReadingClock,
            Snapshot::Copying { to } => Snapshot::Copying { to: to@ },
            Snapshot::ReadingMetadata { of } => Snapshot::ReadingMetadata { of: of@ },
        }
    }
}

/// The next step of a backup.
pub type SnapshotStep = Step<Action, Snapshot<UnixPath>, FileEntry, ApiError>;

/// The next step of a backup, as a value of the model.
pub type SnapshotStepView = Step<ActionView, Snapshot<Seq<u8>>, FileEntryView, ApiErrorView>;

/// Where a backup that is made at a point in time is kept.
pub open spec fn backup_path(settings: AppConfigView, time: TimestampView) -> Seq<u8> {
    join(settings.backups_dir, encode_utf8(backup_file_name(time)))
}

/// The first step of a backup.
pub open spec fn snapshot_start(settings: AppConfigView) -> SnapshotStepView {
    Step::Perform {
        action: ActionView::CheckExists { path: settings.sing_box_config_path },
        state: Snapshot::CheckingConfig,
    }
}

/// What follows once something is known of a new or restored backup, or is not.
pub open spec fn backup_entry(of: Seq<u8>, event: EventView) -> Result<
    FileEntryView,
    ApiErrorView,
> {
    match event {
        EventView::Metadata(Ok(metadata)) => match candidate(ListKind::Backups, of, metadata) {
            Ok(c) => Ok(c.entry),
            Err(error) => Err(error),
        },
        EventView::Metadata(Err(failure)) => Err(metadata_failure(of, failure)),
        _ => Err(unexpected()),
    }
}

/// What follows an answer while a backup is being made.
pub open spec fn snapshot_next(
    settings: AppConfigView,
    state: Snapshot<Seq<u8>>,
    event: EventView,
) -> SnapshotStepView {
    let config = settings.sing_box_config_path;
    match (state, event) {
        (Snapshot::CheckingConfig, EventView::Found(Ok(true))) => Step::Perform {
            action: ActionView::CreateDirs { path: settings.backups_dir },
            state: Snapshot::CreatingDir,
        },
        (Snapshot::CheckingConfig, EventView::Found(Ok(false))) => Step::Fail {
            error: not_found("sing-box config not found: "@ + lossy_text(config)),
        },
        (Snapshot::CheckingConfig, EventView::Found(Err(failure))) => Step::Fail {
            error: internal(
                failure_text("failed to check config presence "@, lossy_text(config), failure),
            ),
        },
        (Snapshot::CreatingDir, EventView::Done(Ok(_))) => Step::Perform {
            action: ActionView::ReadClock,
            state: Snapshot::ReadingClock,
        },
        (Snapshot::CreatingDir, EventView::Done(Err(failure))) => Step::Fail {
            error: internal(
                failure_text(
                    "failed to create backups directory "@,
                    lossy_text(settings.backups_dir),
                    failure,
                ),
            ),
        },
        (Snapshot::ReadingClock, EventView::Time(time)) => Step::Perform {
            action: ActionView::CopyFile { from: config, to: backup_path(settings, time) },
            state: Snapshot::Copying { to: backup_path(settings, time) },
        },
        (Snapshot::Copying { to }, EventView::Done(Ok(_))) => Step::Perform {
            action: ActionView::ReadMetadata { path: to },
            state: Snapshot::ReadingMetadata { of: to },
        },
        (Snapshot::Copying { to }, EventView::Done(Err(failure))) => Step::Fail {
            error: internal(failure_text("failed to create backup "@, lossy_text(to), failure)),
        },
        (Snapshot::ReadingMetadata { of }, event) => match backup_entry(of, event) {
            Ok(response) => Step::Finish { response },
            Err(error) => Step::Fail { error },
        },
        _ => Step::Fail { error: unexpected() },
    }
}

/// The value of the model that a backup stands for.
pub open spec fn entry_result(r: Result<FileEntry, ApiError>) -> Result<
    FileEntryView,
    ApiErrorView,
> {
    match r {
        Ok(entry) => Ok(entry@),
        Err(error) => Err(error@),
    }
}

/// Tells of a new or restored backup.
pub fn read_backup_entry(of: &UnixPath, event: Event) -> (r: Result<FileEntry, ApiError>)
    ensures
        entry_result(r) == backup_entry(of@, event@),
{
    match event {
        Event::Metadata(Ok(metadata)) => match candidate_from_path(
            &ListKind::Backups,
            of,
            &metadata,
        ) {
            Ok(c) => Ok(c.entry),
            Err(error) => Err(error),
        },
        Event::Metadata(Err(failure)) => Err(report_metadata_failure(of, &failure)),
        _ => Err(report_unexpected()),
    }
}

impl Snapshot<UnixPath> {
    /// Starts to make a backup.
    pub fn start(settings: &AppConfig) -> (r: SnapshotStep)
        ensures
            r@ == snapshot_start(settings@),
    {
        Step::Perform {
            action: Action::CheckExists { path: settings.sing_box_config_path.copy() },
            state: Snapshot::CheckingConfig,
        }
    }

    /// Goes on with the answer to the operation that was asked for.
    pub fn next(self, settings: &AppConfig, event: Event) -> (r: SnapshotStep)
        ensures
            r@ == snapshot_next(settings@, self@, event@),
            self@ is ReadingClock ==> (event@ matches EventView::Time(time) ==> has_own_name(time)),
    {
        let config = &settings.sing_box_config_path;
        match (self, event) {
            (Snapshot::CheckingConfig, Event::Found(Ok(exists))) => if exists {
                Step::Perform {
                    action: Action::CreateDirs { path: settings.backups_dir.copy() },
                    state: Snapshot::CreatingDir,
                }
            } else {
                Step::Fail {
                    error: ApiError::not_found(
                        concat2("sing-box config not found: ", config.display().as_str()),
                    ),
                }
            },
            (Snapshot::CheckingConfig, Event::Found(Err(failure))) => Step::Fail {
                error: ApiError::internal(
                    describe_failure(
                        "failed to check config presence ",
                        config.display().as_str(),
                        &failure,
                    ),
                ),
            },
            (Snapshot::CreatingDir, Event::Done(Ok(_))) => Step::Perform {
                action: Action::ReadClock,
                state: Snapshot::ReadingClock,
            },
            (Snapshot::CreatingDir, Event::Done(Err(failure))) => Step::Fail {
                error: ApiError::internal(
                    describe_failure(
                        "failed to create backups directory ",
                        settings.backups_dir.display().as_str(),
                        &failure,
                    ),
                ),
            },
            (Snapshot::ReadingClock, Event::Time(time)) => {
                let name = UnixPath::new(time.backup_file_name().as_str());
                let to = settings.backups_dir.join(&name);
                Step::Perform {
                    action: Action::CopyFile { from: config.copy(), to: to.copy() },
                    state: Snapshot::Copying { to },
                }
            },
            (Snapshot::Copying { to }, Event::Done(Ok(_))) => Step::Perform {
                action: Action::ReadMetadata { path: to.copy() },
                state: Snapshot::ReadingMetadata { of: to },
            },
            (Snapshot::Copying { to }, Event::Done(Err(failure))) => Step::Fail {
                error: ApiError::internal(
                    describe_failure(
                        "failed to create backup ",
                        to.display().as_str(),
                        &failure,
                    ),
                ),
            },
            (Snapshot::ReadingMetadata { of }, event) => match read_backup_entry(&of, event) {
                Ok(response) => Step::Finish { response },
                Err(error) => Step::Fail { error },
            },
            _ => Step::Fail { error: report_unexpected() },
        }
    }
}

} // verus!
