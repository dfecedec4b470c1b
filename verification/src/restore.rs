//! Restoring the managed configuration from a backup.
use crate::config::{AppConfig, AppConfigView};
use crate::error::{internal, not_found, ApiError, ApiErrorView};
use crate::io::{
    describe_failure, failure_text, report_unexpected, unexpected, Action, ActionView, Event,
    EventView, IoFailureView, Step,
};
use crate::listing::{FileEntry, FileEntryView};
use crate::names::{backup_name, sanitize_backup_name};
use crate::path::{join, parent, UnixPath};
use crate::snapshot::{backup_entry, read_backup_entry, snapshot_next, snapshot_start, Snapshot};
use crate::text::{concat2, concat3};
use crate::update::opt_entry;
use crate::utf8::lossy_text;
use vstd::prelude::*;
use vstd::utf8::encode_utf8;

verus! {

/// The answer to a restore.
#[derive(Debug)]
pub struct RestoreBackupResponse {
    pub restored_from: FileEntry,
    /// The backup of the configuration that was replaced, if there was one.
    pub previous_config_backup: Option<FileEntry>,
}

/// The answer to a restore, as a value of the model.
pub struct RestoreBackupResponseView {
    pub restored_from: FileEntryView,
    pub previous_config_backup: Option<FileEntryView>,
}

impl View for RestoreBackupResponse {
    type V = RestoreBackupResponseView;

    open spec fn view(&self) -> RestoreBackupResponseView {
        RestoreBackupResponseView {
            restored_from: self.restored_from@,
            previous_config_backup: opt_entry(self.previous_config_backup),
        }
    }
}

/// What a restore is doing.
#[derive(Debug)]
pub enum RestoreStage {
    /// Whether there is such a backup is being checked.
    CheckingBackup,
    /// Whether there is a configuration to back up is being checked.
    CheckingConfig,
    /// A backup of the present configuration is being made.
    BackingUp { snapshot: Snapshot<UnixPath> },
    /// The directory of the configuration is being created.
    CreatingDir { dir: UnixPath, previous: Option<FileEntry> },
    /// The backup is being read.
    Reading { previous: Option<FileEntry> },
    /// The configuration is being written.
    Writing { previous: Option<FileEntry> },
    /// What is known of the backup is being read.
    ReadingMetadata { previous: Option<FileEntry> },
}

/// What a restore is doing, as a value of the model.
pub enum RestoreStageView {
    CheckingBackup,
    CheckingConfig,
    BackingUp { snapshot: Snapshot<Seq<u8>> },
    CreatingDir { dir: Seq<u8>, previous: Option<FileEntryView> },
    Reading { previous: Option<FileEntryView> },
    Writing { previous: Option<FileEntryView> },
    ReadingMetadata { previous: Option<FileEntryView> },
}

impl View for RestoreStage {
    type V = RestoreStageView;

    open spec fn view(&self) -> RestoreStageView {
        match *self {
            RestoreStage::CheckingBackup => RestoreStageView::CheckingBackup,
            RestoreStage::CheckingConfig => RestoreStageView::CheckingConfig,
            RestoreStage::BackingUp { snapshot } => RestoreStageView::BackingUp {
                snapshot: snapshot@,
            },
            RestoreStage::CreatingDir { dir, previous } => RestoreStageView::CreatingDir {
                dir: dir@,
                previous: opt_entry(previous),
            },
            RestoreStage::Reading { previous } => RestoreStageView::Reading {
                previous: opt_entry(previous),
            },
            RestoreStage::Writing { previous } => RestoreStageView::Writing {
                previous: opt_entry(previous),
            },
            RestoreStage::ReadingMetadata { previous } => RestoreStageView::ReadingMetadata {
                previous: opt_entry(previous),
            },
        }
    }
}

/// A restore that is under way.
#[derive(Debug)]
pub struct Restore {
    /// The path of the backup.
    pub backup: UnixPath,
    pub stage: RestoreStage,
}

/// A restore that is under way, as a value of the model.
pub struct RestoreView {
    pub backup: Seq<u8>,
    pub stage: RestoreStageView,
}

impl View for Restore {
    type V = RestoreView;

    open spec fn view(&self) -> RestoreView {
        RestoreView { backup: self.backup@, stage: self.stage@ }
    }
}

/// The next step of a restore.
pub type RestoreStep = Step<Action, Restore, RestoreBackupResponse, ApiError>;

/// The next step of a restore, as a value of the model.
pub type RestoreStepView = Step<
    ActionView,
    RestoreView,
    RestoreBackupResponseView,
    ApiErrorView,
>;

/// The first step of a restore from the backup with the given name.
pub open spec fn restore_start(settings: AppConfigView, name: Seq<char>) -> RestoreStepView {
    match backup_name(name) {
        Ok(name) => {
            let backup = join(settings.backups_dir, encode_utf8(name));
            Step::Perform {
                action: ActionView::CheckExists { path: backup },
                state: RestoreView { backup, stage: RestoreStageView::CheckingBackup },
            }
        },
        Err(error) => Step::Fail { error },
    }
}

/// The step that reads the backup.
pub open spec fn read_backup(backup: Seq<u8>, previous: Option<FileEntryView>) -> RestoreStepView {
    Step::Perform {
        action: ActionView::ReadFile { path: backup },
        state: RestoreView { backup, stage: RestoreStageView::Reading { previous } },
    }
}

/// The step that makes sure that the directory of the configuration exists.
pub open spec fn prepare_dir(
    settings: AppConfigView,
    backup: Seq<u8>,
    previous: Option<FileEntryView>,
) -> RestoreStepView {
    match parent(settings.sing_box_config_path) {
        Some(dir) => Step::Perform {
            action: ActionView::CreateDirs { path: dir },
            state: RestoreView { backup, stage: RestoreStageView::CreatingDir { dir, previous } },
        },
        None => read_backup(backup, previous),
    }
}

/// The step of a restore that a step of the backup of the present configuration stands for.
pub open spec fn previous_step(
    settings: AppConfigView,
    backup: Seq<u8>,
    step: Step<ActionView, Snapshot<Seq<u8>>, FileEntryView, ApiErrorView>,
) -> RestoreStepView {
    match step {
        Step::Perform { action, state } => Step::Perform {
            action,
            state: RestoreView { backup, stage: RestoreStageView::BackingUp { snapshot: state } },
        },
        Step::Finish { response } => prepare_dir(settings, backup, Some(response)),
        Step::Fail { error } => Step::Fail { error },
    }
}

/// The report that the configuration could not be written.
pub open spec fn restore_failure(
    backup: Seq<u8>,
    config: Seq<u8>,
    failure: IoFailureView,
) -> ApiErrorView {
    internal(
        failure_text(
            "failed to restore backup "@ + lossy_text(backup) + " to "@,
            lossy_text(config),
            failure,
        ),
    )
}

/// What follows an answer during a restore.
pub open spec fn restore_next(
    settings: AppConfigView,
    state: RestoreView,
    event: EventView,
) -> RestoreStepView {
    let config = settings.sing_box_config_path;
    let backup = state.backup;
    match (state.stage, event) {
        (RestoreStageView::CheckingBackup, EventView::Found(Ok(true))) => Step::Perform {
            action: ActionView::CheckExists { path: config },
            state: RestoreView { backup, stage: RestoreStageView::CheckingConfig },
        },
        (RestoreStageView::CheckingBackup, EventView::Found(Ok(false))) => Step::Fail {
            error: not_found("backup not found: "@ + lossy_text(backup)),
        },
        (RestoreStageView::CheckingBackup, EventView::Found(Err(failure))) => Step::Fail {
            error: internal(
                failure_text("failed to check backup presence "@, lossy_text(backup), failure),
            ),
        },
        (RestoreStageView::CheckingConfig, EventView::Found(Ok(true))) => previous_step(
            settings,
            backup,
            snapshot_start(settings),
        ),
        (RestoreStageView::CheckingConfig, EventView::Found(Ok(false))) => prepare_dir(
            settings,
            backup,
            None,
        ),
        (RestoreStageView::CheckingConfig, EventView::Found(Err(failure))) => Step::Fail {
            error: internal(
                failure_text(
                    "failed to check current config presence "@,
                    lossy_text(config),
                    failure,
                ),
            ),
        },
        (RestoreStageView::BackingUp { snapshot }, event) => previous_step(
            settings,
            backup,
            snapshot_next(settings, snapshot, event),
        ),
        (RestoreStageView::CreatingDir { dir, previous }, EventView::Done(Ok(_))) => read_backup(
            backup,
            previous,
        ),
        (RestoreStageView::CreatingDir { dir, previous }, EventView::Done(Err(failure))) =>
            Step::Fail {
            error: internal(
                failure_text("failed to create config directory "@, lossy_text(dir), failure),
            ),
        },
        (RestoreStageView::Reading { previous }, EventView::Contents(Ok(contents))) =>
            Step::Perform {
            action: ActionView::WriteFile { path: config, contents },
            state: RestoreView { backup, stage: RestoreStageView::Writing { previous } },
        },
        (RestoreStageView::Reading { previous }, EventView::Contents(Err(failure))) => Step::Fail {
            error: internal(
                failure_text("failed to read backup "@, lossy_text(backup), failure),
            ),
        },
        (RestoreStageView::Writing { previous }, EventView::Done(Ok(_))) => Step::Perform {
            action: ActionView::ReadMetadata { path: backup },
            state: RestoreView { backup, stage: RestoreStageView::ReadingMetadata { previous } },
        },
        (RestoreStageView::Writing { previous }, EventView::Done(Err(failure))) => Step::Fail {
            error: restore_failure(backup, config, failure),
        },
        (RestoreStageView::ReadingMetadata { previous }, event) => match backup_entry(
            backup,
            event,
        ) {
            Ok(entry) => Step::Finish {
                response: RestoreBackupResponseView {
                    restored_from: entry,
                    previous_config_backup: previous,
                },
            },
            Err(error) => Step::Fail { error },
        },
        _ => Step::Fail { error: unexpected() },
    }
}

impl Restore {
    /// Starts a restore from the backup with the given name.
    pub fn start(settings: &AppConfig, name: &str) -> (r: RestoreStep)
        ensures
            r@ == restore_start(settings@, name@),
    {
        match sanitize_backup_name(name) {
            Ok(name) => {
                let backup = settings.backups_dir.join(&UnixPath::new(name.as_str()));
                Step::Perform {
                    action: Action::CheckExists { path: backup.copy() },
                    state: Restore { backup, stage: RestoreStage::CheckingBackup },
                }
            },
            Err(error) => Step::Fail { error },
        }
    }

    /// Reads the backup.
    fn read_backup(backup: UnixPath, previous: Option<FileEntry>) -> (r: RestoreStep)
        ensures
            r@ == read_backup(backup@, opt_entry(previous)),
    {
        Step::Perform {
            action: Action::ReadFile { path: backup.copy() },
            state: Restore { backup, stage: RestoreStage::Reading { previous } },
        }
    }

    /// Makes sure that the directory of the configuration exists.
    fn prepare_dir(
        settings: &AppConfig,
        backup: UnixPath,
        previous: Option<FileEntry>,
    ) -> (r: RestoreStep)
        ensures
            r@ == prepare_dir(settings@, backup@, opt_entry(previous)),
    {
        match settings.sing_box_config_path.parent() {
            Some(dir) => Step::Perform {
                action: Action::CreateDirs { path: dir.copy() },
                state: Restore { backup, stage: RestoreStage::CreatingDir { dir, previous } },
            },
            None => Restore::read_backup(backup, previous),
        }
    }

    /// Goes on with a step of the backup of the present configuration.
    fn previous_step(
        settings: &AppConfig,
        backup: UnixPath,
        step: Step<Action, Snapshot<UnixPath>, FileEntry, ApiError>,
    ) -> (r: RestoreStep)
        ensures
            r@ == previous_step(settings@, backup@, step@),
    {
        match step {
            Step::Perform { action, state } => Step::Perform {
                action,
                state: Restore { backup, stage: RestoreStage::BackingUp { snapshot: state } },
            },
            Step::Finish { response } => Restore::prepare_dir(settings, backup, Some(response)),
            Step::Fail { error } => Step::Fail { error },
        }
    }

    /// Goes on with the answer to the operation that was asked for.
    pub fn next(self, settings: &AppConfig, event: Event) -> (r: RestoreStep)
        ensures
            r@ == restore_next(settings@, self@, event@),
    {
        let config = &settings.sing_box_config_path;
        let backup = self.backup;
        match (self.stage, event) {
            (RestoreStage::CheckingBackup, Event::Found(Ok(exists))) => if exists {
                Step::Perform {
                    action: Action::CheckExists { path: config.copy() },
                    state: Restore { backup, stage: RestoreStage::CheckingConfig },
                }
            } else {
                Step::Fail {
                    error: ApiError::not_found(
                        concat2("backup not found: ", backup.display().as_str()),
                    ),
                }
            },
            (RestoreStage::CheckingBackup, Event::Found(Err(failure))) => Step::Fail {
                error: ApiError::internal(
                    describe_failure(
                        "failed to check backup presence ",
                        backup.display().as_str(),
                        &failure,
                    ),
                ),
            },
            (RestoreStage::CheckingConfig, Event::Found(Ok(exists))) => if exists {
                Restore::previous_step(settings, backup, Snapshot::start(settings))
            } else {
                Restore::prepare_dir(settings, backup, None)
            },
            (RestoreStage::CheckingConfig, Event::Found(Err(failure))) => Step::Fail {
                error: ApiError::internal(
                    describe_failure(
                        "failed to check current config presence ",
                        config.display().as_str(),
                        &failure,
                    ),
                ),
            },
            (RestoreStage::BackingUp { snapshot }, event) => Restore::previous_step(
                settings,
                backup,
                snapshot.next(settings, event),
            ),
            (RestoreStage::CreatingDir { dir, previous }, Event::Done(Ok(_))) =>
                Restore::read_backup(backup, previous),
            (RestoreStage::CreatingDir { dir, previous }, Event::Done(Err(failure))) => Step::Fail {
                error: ApiError::internal(
                    describe_failure(
                        "failed to create config directory ",
                        dir.display().as_str(),
                        &failure,
                    ),
                ),
            },
            (RestoreStage::Reading { previous }, Event::Contents(Ok(contents))) => Step::Perform {
                action: Action::WriteFile { path: config.copy(), contents },
                state: Restore { backup, stage: RestoreStage::Writing { previous } },
            },
            (RestoreStage::Reading { previous }, Event::Contents(Err(failure))) => Step::Fail {
                error: ApiError::internal(
                    describe_failure(
                        "failed to read backup ",
                        backup.display().as_str(),
                        &failure,
                    ),
                ),
            },
            (RestoreStage::Writing { previous }, Event::Done(Ok(_))) => Step::Perform {
                action: Action::ReadMetadata { path: backup.copy() },
                state: Restore { backup, stage: RestoreStage::ReadingMetadata { previous } },
            },
            (RestoreStage::Writing { previous }, Event::Done(Err(failure))) => {
                let what = concat3(
                    "failed to restore backup ",
                    backup.display().as_str(),
                    " to ",
                );
                Step::Fail {
                    error: ApiError::internal(
                        describe_failure(what.as_str(), config.display().as_str(), &failure),
                    ),
                }
            },
            (RestoreStage::ReadingMetadata { previous }, event) => {
                match read_backup_entry(&backup, event) {
                    Ok(entry) => Step::Finish {
                        response: RestoreBackupResponse {
                            restored_from: entry,
                            previous_config_backup: previous,
                        },
                    },
                    Err(error) => Step::Fail { error },
                }
            },
            _ => Step::Fail { error: report_unexpected() },
        }
    }
}

} // verus!
