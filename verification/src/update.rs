//! Updates of the managed configuration.
use crate::config::{AppConfig, AppConfigView};
use crate::document::{contents_result, file_contents, serialize_config, UpdateConfigRequest};
use crate::error::{internal, ApiError, ApiErrorView};
use crate::io::{
    describe_failure, failure_text, report_unexpected, unexpected, Action, ActionView, Event,
    EventView, Step,
};
use crate::json::json_pretty;
use crate::listing::{FileEntry, FileEntryView};
use crate::path::{parent, UnixPath};
use crate::snapshot::{snapshot_next, snapshot_start, Snapshot};
use crate::utf8::lossy_text;
use vstd::prelude::*;

verus! {

/// The answer to an update.
#[derive(Debug)]
pub struct UpdateConfigResponse {
    pub path: String,
    /// The backup of the configuration that was replaced, if there was one.
    pub backup: Option<FileEntry>,
}

/// The answer to an update, as a value of the model.
pub struct UpdateConfigResponseView {
    pub path: Seq<char>,
    pub backup: Option<FileEntryView>,
}

/// The value of the model that an entry stands for, where there is one.
pub open spec fn opt_entry(entry: Option<FileEntry>) -> Option<FileEntryView> {
    match entry {
        Some(e) => Some(e@),
        None => None,
    }
}

impl View for UpdateConfigResponse {
    type V = UpdateConfigResponseView;

    open spec fn view(&self) -> UpdateConfigResponseView {
        UpdateConfigResponseView { path: self.path@, backup: opt_entry(self.backup) }
    }
}

/// How far an update has got.
#[derive(Debug)]
pub enum Update {
    /// The directory of the configuration is being created.
    CreatingDir { dir: UnixPath },
    /// Whether there is a configuration to back up is being checked.
    CheckingConfig,
    /// A backup is being made.
    BackingUp { snapshot: Snapshot<UnixPath> },
    /// The new configuration is being written.
    Writing { backup: Option<FileEntry> },
}

/// How far an update has got, as a value of the model.
pub enum UpdateView {
    CreatingDir { dir: Seq<u8> },
    CheckingConfig,
    BackingUp { snapshot: Snapshot<Seq<u8>> },
    Writing { backup: Option<FileEntryView> },
}

impl View for Update {
    type V = UpdateView;

    open spec fn view(&self) -> UpdateView {
        match *self {
            Update::CreatingDir { dir } => UpdateView::CreatingDir { dir: dir@ },
            Update::CheckingConfig => UpdateView::CheckingConfig,
            Update::BackingUp { snapshot } => UpdateView::BackingUp { snapshot: snapshot@ },
            Update::Writing { backup } => UpdateView::Writing { backup: opt_entry(backup) },
        }
    }
}

/// The next step of an update.
pub type UpdateStep = Step<Action, Update, UpdateConfigResponse, ApiError>;

/// The next step of an update, as a value of the model.
pub type UpdateStepView = Step<ActionView, UpdateView, UpdateConfigResponseView, ApiErrorView>;

/// The step that checks whether there is a configuration to back up.
pub open spec fn check_config(settings: AppConfigView) -> UpdateStepView {
    Step::Perform {
        action: ActionView::CheckExists { path: settings.sing_box_config_path },
        state: UpdateView::CheckingConfig,
    }
}

/// The first step of an update.
pub open spec fn update_start(settings: AppConfigView) -> UpdateStepView {
    match parent(settings.sing_box_config_path) {
        Some(dir) => Step::Perform {
            action: ActionView::CreateDirs { path: dir },
            state: UpdateView::CreatingDir { dir },
        },
        None => check_config(settings),
    }
}

/// The step that writes the new configuration, which is `contents` unless it cannot be written
/// down.
pub open spec fn write_config(
    settings: AppConfigView,
    contents: Result<Seq<u8>, ApiErrorView>,
    backup: Option<FileEntryView>,
) -> UpdateStepView {
    match contents {
        Ok(contents) => Step::Perform {
            action: ActionView::WriteFile { path: settings.sing_box_config_path, contents },
            state: UpdateView::Writing { backup },
        },
        Err(error) => Step::Fail { error },
    }
}

/// The step of an update that a step of its backup stands for.
pub open spec fn backup_step(
    settings: AppConfigView,
    contents: Result<Seq<u8>, ApiErrorView>,
    step: Step<ActionView, Snapshot<Seq<u8>>, FileEntryView, ApiErrorView>,
) -> UpdateStepView {
    match step {
        Step::Perform { action, state } => Step::Perform {
            action,
            state: UpdateView::BackingUp { snapshot: state },
        },
        Step::Finish { response } => write_config(settings, contents, Some(response)),
        Step::Fail { error } => Step::Fail { error },
    }
}

/// What follows an answer during an update to a configuration that is written as `contents`,
/// unless it cannot be written down.
pub open spec fn update_next(
    settings: AppConfigView,
    contents: Result<Seq<u8>, ApiErrorView>,
    state: UpdateView,
    event: EventView,
) -> UpdateStepView {
    let config = settings.sing_box_config_path;
    match (state, event) {
        (UpdateView::CreatingDir { dir }, EventView::Done(Ok(_))) => check_config(settings),
        (UpdateView::CreatingDir { dir }, EventView::Done(Err(failure))) => Step::Fail {
            error: internal(
                failure_text("failed to create config directory "@, lossy_text(dir), failure),
            ),
        },
        (UpdateView::CheckingConfig, EventView::Found(Ok(true))) => backup_step(
            settings,
            contents,
            snapshot_start(settings),
        ),
        (UpdateView::CheckingConfig, EventView::Found(Ok(false))) => write_config(
            settings,
            contents,
            None,
        ),
        (UpdateView::CheckingConfig, EventView::Found(Err(failure))) => Step::Fail {
            error: internal(
                failure_text("failed to check config presence "@, lossy_text(config), failure),
            ),
        },
        (UpdateView::BackingUp { snapshot }, event) => backup_step(
            settings,
            contents,
            snapshot_next(settings, snapshot, event),
        ),
        (UpdateView::Writing { backup }, EventView::Done(Ok(_))) => Step::Finish {
            response: UpdateConfigResponseView { path: lossy_text(config), backup },
        },
        (UpdateView::Writing { backup }, EventView::Done(Err(failure))) => Step::Fail {
            error: internal(
                failure_text("failed to write sing-box config "@, lossy_text(config), failure),
            ),
        },
        _ => Step::Fail { error: unexpected() },
    }
}

/// Whether the new configuration is written next: there is none to back up, or the backup is made.
pub open spec fn writes_next(
    settings: AppConfigView,
    state: UpdateView,
    event: EventView,
) -> bool {
    match state {
        UpdateView::CheckingConfig => event == EventView::Found(Ok(false)),
        UpdateView::BackingUp { snapshot } => snapshot_next(settings, snapshot, event) is Finish,
        _ => false,
    }
}

impl Update {
    /// Checks whether there is a configuration to back up.
    fn check_config(settings: &AppConfig) -> (r: UpdateStep)
        ensures
            r@ == check_config(settings@),
    {
        Step::Perform {
            action: Action::CheckExists { path: settings.sing_box_config_path.copy() },
            state: Update::CheckingConfig,
        }
    }

    /// Starts an update.
    pub fn start(settings: &AppConfig) -> (r: UpdateStep)
        ensures
            r@ == update_start(settings@),
    {
        match settings.sing_box_config_path.parent() {
            Some(dir) => Step::Perform {
                action: Action::CreateDirs { path: dir.copy() },
                state: Update::CreatingDir { dir },
            },
            None => Update::check_config(settings),
        }
    }

    /// Writes the new configuration, unless it cannot be written down.
    pub fn write_config(
        settings: &AppConfig,
        contents: Result<Vec<u8>, ApiError>,
        backup: Option<FileEntry>,
    ) -> (r: UpdateStep)
        ensures
            r@ == write_config(settings@, contents_result(contents), opt_entry(backup)),
    {
        match contents {
            Ok(contents) => Step::Perform {
                action: Action::WriteFile {
                    path: settings.sing_box_config_path.copy(),
                    contents,
                },
                state: Update::Writing { backup },
            },
            Err(error) => Step::Fail { error },
        }
    }

    /// Goes on with a step of the backup.
    fn backup_step(
        settings: &AppConfig,
        request: &UpdateConfigRequest,
        step: Step<Action, Snapshot<UnixPath>, FileEntry, ApiError>,
    ) -> (r: UpdateStep)
        ensures
            r@ == backup_step(
                settings@,
                file_contents(json_pretty(request.config)),
                step@,
            ),
            step is Finish ==> file_contents(json_pretty(request.config)) is Ok,
    {
        match step {
            Step::Perform { action, state } => Step::Perform {
                action,
                state: Update::BackingUp { snapshot: state },
            },
            Step::Finish { response } => Update::write_config(
                settings,
                serialize_config(request),
                Some(response),
            ),
            Step::Fail { error } => Step::Fail { error },
        }
    }

    /// Goes on with the answer to the operation that was asked for.
    pub fn next(
        self,
        settings: &AppConfig,
        request: &UpdateConfigRequest,
        event: Event,
    ) -> (r: UpdateStep)
        ensures
            r@ == update_next(
                settings@,
                file_contents(json_pretty(request.config)),
                self@,
                event@,
            ),
            writes_next(settings@, self@, event@) ==> r@ is Perform && file_contents(
                json_pretty(request.config),
            ) is Ok,
    {
        let config = &settings.sing_box_config_path;
        match (self, event) {
            (Update::CreatingDir { dir }, Event::Done(Ok(_))) => Update::check_config(settings),
            (Update::CreatingDir { dir }, Event::Done(Err(failure))) => Step::Fail {
                error: ApiError::internal(
                    describe_failure(
                        "failed to create config directory ",
                        dir.display().as_str(),
                        &failure,
                    ),
                ),
            },
            (Update::CheckingConfig, Event::Found(Ok(exists))) => if exists {
                Update::backup_step(settings, request, Snapshot::start(settings))
            } else {
                Update::write_config(settings, serialize_config(request), None)
            },
            (Update::CheckingConfig, Event::Found(Err(failure))) => Step::Fail {
                error: ApiError::internal(
                    describe_failure(
                        "failed to check config presence ",
                        config.display().as_str(),
                        &failure,
                    ),
                ),
            },
            (Update::BackingUp { snapshot }, event) => Update::backup_step(
                settings,
                request,
                snapshot.next(settings, event),
            ),
            (Update::Writing { backup }, Event::Done(Ok(_))) => Step::Finish {
                response: UpdateConfigResponse { path: config.display(), backup },
            },
            (Update::Writing { backup }, Event::Done(Err(failure))) => Step::Fail {
                error: ApiError::internal(
                    describe_failure(
                        "failed to write sing-box config ",
                        config.display().as_str(),
                        &failure,
                    ),
                ),
            },
            _ => Step::Fail { error: report_unexpected() },
        }
    }
}

} // verus!
