//! Checks of a configuration before it is put to use.
use crate::clock::{check_file_name, law_check_names_hold_the_time, Timestamp, TimestampView};
use crate::command::{
    build_check_command_parts, check_command, command_report, command_words,
    law_check_names_the_config, law_first_word_is_the_program, prepare_command, prepared,
    report_command, report_result, shell_split, words_result, CommandResponse, CommandResponseView,
};
use crate::config::{AppConfig, AppConfigView};
use crate::document::{contents_result, file_contents, serialize_config, UpdateConfigRequest};
use crate::error::{internal, ApiError, ApiErrorView};
use crate::io::{
    describe_failure, failure_text, report_unexpected, unexpected, Action, ActionView, Event,
    EventView, Step,
};
use crate::json::json_pretty;
use crate::path::{join, law_joining, UnixPath};
use crate::text::texts;
use crate::utf8::lossy_text;
use crate::world::{
    after, is_failure, is_run, lemma_run_keeps, no_failure, same_but, truthful, Disk,
};
use vstd::prelude::*;
use vstd::utf8::encode_utf8;

verus! {

/// What a check is doing.
#[derive(Debug)]
pub enum CheckStage {
    /// The configuration is being written to a temporary file.
    Writing,
    /// The command is being run.
    Running { display: String },
    /// The temporary file is being deleted; then the result is told.
    Removing { result: Result<CommandResponse, ApiError> },
}

/// What a check is doing, as a value of the model.
pub enum CheckStageView {
    Writing,
    Running { display: Seq<char> },
    Removing { result: Result<CommandResponseView, ApiErrorView> },
}

impl View for CheckStage {
    type V = CheckStageView;

    open spec fn view(&self) -> CheckStageView {
        match *self {
            CheckStage::Writing => CheckStageView::Writing,
            CheckStage::Running { display } => CheckStageView::Running { display: display@ },
            CheckStage::Removing { result } => CheckStageView::Removing {
                result: report_result(result),
            },
        }
    }
}

/// A check that is under way.
#[derive(Debug)]
pub struct Check {
    /// The path of the temporary file.
    pub temp: UnixPath,
    pub stage: CheckStage,
}

/// A check that is under way, as a value of the model.
pub struct CheckView {
    pub temp: Seq<u8>,
    pub stage: CheckStageView,
}

impl View for Check {
    type V = CheckView;

    open spec fn view(&self) -> CheckView {
        CheckView { temp: self.temp@, stage: self.stage@ }
    }
}

/// The next step of a check.
pub type CheckStep = Step<Action, Check, CommandResponse, ApiError>;

/// The next step of a check, as a value of the model.
pub type CheckStepView = Step<ActionView, CheckView, CommandResponseView, ApiErrorView>;

/// The path of the temporary file of a check.
pub open spec fn temp_check_path(temp_dir: Seq<u8>, now: TimestampView) -> Seq<u8> {
    join(temp_dir, encode_utf8(check_file_name(now)))
}

/// The path of the temporary file of a check.
pub fn build_temp_check_path(temp_dir: &UnixPath, now: &Timestamp) -> (r: UnixPath)
    ensures
        r@ == temp_check_path(temp_dir@, now@),
{
    temp_dir.join(&UnixPath::new(now.check_file_name().as_str()))
}

/// The first step of a check of a configuration that is written as `contents`, unless it cannot
/// be written down.
pub open spec fn check_start(
    temp: Seq<u8>,
    contents: Result<Seq<u8>, ApiErrorView>,
) -> CheckStepView {
    match contents {
        Ok(contents) => Step::Perform {
            action: ActionView::WriteFile { path: temp, contents },
            state: CheckView { temp, stage: CheckStageView::Writing },
        },
        Err(error) => Step::Fail { error },
    }
}

/// The step that deletes the temporary file before the result is told.
pub open spec fn remove_temp(
    temp: Seq<u8>,
    result: Result<CommandResponseView, ApiErrorView>,
) -> CheckStepView {
    Step::Perform {
        action: ActionView::RemoveFile { path: temp },
        state: CheckView { temp, stage: CheckStageView::Removing { result } },
    }
}

/// The step that runs a command with the given words, if it has any.
pub open spec fn run_parts(
    temp: Seq<u8>,
    parts: Result<Seq<Seq<char>>, ApiErrorView>,
) -> CheckStepView {
    match parts {
        Ok(parts) => match prepared(parts) {
            Ok(command) => Step::Perform {
                action: ActionView::RunProgram { program: command.program, args: command.args },
                state: CheckView {
                    temp,
                    stage: CheckStageView::Running { display: command.display },
                },
            },
            Err(error) => remove_temp(temp, Err(error)),
        },
        Err(error) => Step::Fail { error },
    }
}

/// What follows an answer during a check. Whatever the command does, the temporary file is
/// deleted; whether that succeeds does not matter.
pub open spec fn check_next(
    settings: AppConfigView,
    state: CheckView,
    event: EventView,
) -> CheckStepView {
    let temp = state.temp;
    match (state.stage, event) {
        (CheckStageView::Writing, EventView::Done(Ok(_))) => run_parts(
            temp,
            check_command(settings.check_command, temp),
        ),
        (CheckStageView::Writing, EventView::Done(Err(failure))) => Step::Fail {
            error: internal(
                failure_text("failed to write temporary config "@, lossy_text(temp), failure),
            ),
        },
        (CheckStageView::Running { display }, EventView::Output(output)) => remove_temp(
            temp,
            command_report(display, output),
        ),
        (CheckStageView::Removing { result }, EventView::Done(_)) => match result {
            Ok(response) => Step::Finish { response },
            Err(error) => Step::Fail { error },
        },
        _ => Step::Fail { error: unexpected() },
    }
}

/// Whether a command that is run is told as a command line that splits into the words that are run.
pub open spec fn is_told_as_run(action: Action, state: Check) -> bool {
    state.stage matches CheckStage::Running { display } ==> (action matches Action::RunProgram {
        program,
        args,
    } && shell_split(display@) == Some(seq![program@] + texts(args@)))
}

impl Check {
    /// Starts a check by way of the temporary file `temp`.
    pub fn start(temp: UnixPath, request: &UpdateConfigRequest) -> (r: CheckStep)
        ensures
            r@ == check_start(temp@, file_contents(json_pretty(request.config))),
            file_contents(json_pretty(request.config)) is Ok,
    {
        Check::start_with(temp, serialize_config(request))
    }

    /// Starts a check of a configuration that is written as `contents`.
    pub fn start_with(temp: UnixPath, contents: Result<Vec<u8>, ApiError>) -> (r: CheckStep)
        ensures
            r@ == check_start(temp@, contents_result(contents)),
    {
        match contents {
            Ok(contents) => Step::Perform {
                action: Action::WriteFile { path: temp.copy(), contents },
                state: Check { temp, stage: CheckStage::Writing },
            },
            Err(error) => Step::Fail { error },
        }
    }

    /// Deletes the temporary file before the result is told.
    fn remove_temp(temp: UnixPath, result: Result<CommandResponse, ApiError>) -> (r: CheckStep)
        ensures
            r@ == remove_temp(temp@, report_result(result)),
            r matches Step::Perform { action, state } ==> state.stage == (CheckStage::Removing {
                result,
            }),
    {
        Step::Perform {
            action: Action::RemoveFile { path: temp.copy() },
            state: Check { temp, stage: CheckStage::Removing { result } },
        }
    }

    /// Runs a command with the given words, if it has any.
    pub fn run_parts(temp: UnixPath, parts: Result<Vec<String>, ApiError>) -> (r: CheckStep)
        ensures
            r@ == run_parts(temp@, words_result(parts)),
            r matches Step::Perform { action, state } ==> is_told_as_run(action, state),
    {
        match parts {
            Ok(parts) => match prepare_command(parts) {
                Ok(command) => {
                    proof {
                        law_first_word_is_the_program(texts(parts@));
                    }
                    Step::Perform {
                        action: Action::RunProgram { program: command.program, args: command.args },
                        state: Check {
                            temp,
                            stage: CheckStage::Running { display: command.display },
                        },
                    }
                },
                Err(error) => Check::remove_temp(temp, Err(error)),
            },
            Err(error) => Step::Fail { error },
        }
    }

    /// Goes on with the answer to the operation that was asked for.
    pub fn next(self, settings: &AppConfig, event: Event) -> (r: CheckStep)
        ensures
            r@ == check_next(settings@, self@, event@),
            r matches Step::Perform { action, state } ==> is_told_as_run(action, state),
            self.stage matches CheckStage::Running { display } ==> (event matches Event::Output(
                Ok(output),
            ) ==> (r matches Step::Perform { action, state } && state.stage matches
                CheckStage::Removing { result } && result matches Ok(response)
                && response.command@ == display@ && response.success == output.success
                && response.exit_code == output.exit_code && response.stdout@ == lossy_text(
                output.stdout@,
            ) && response.stderr@ == lossy_text(output.stderr@))),
            self.stage matches CheckStage::Removing { result } ==> (event is Done ==> match result {
                Ok(response) => r == (CheckStep::Finish { response }),
                Err(error) => r == (CheckStep::Fail { error }),
            }),
    {
        let temp = self.temp;
        match (self.stage, event) {
            (CheckStage::Writing, Event::Done(Ok(_))) => {
                let parts = build_check_command_parts(settings.check_command.as_str(), &temp);
                Check::run_parts(temp, parts)
            },
            (CheckStage::Writing, Event::Done(Err(failure))) => Step::Fail {
                error: ApiError::internal(
                    describe_failure(
                        "failed to write temporary config ",
                        temp.display().as_str(),
                        &failure,
                    ),
                ),
            },
            (CheckStage::Running { display }, Event::Output(output)) => Check::remove_temp(
                temp,
                report_command(display, output),
            ),
            (CheckStage::Removing { result }, Event::Done(_)) => match result {
                Ok(response) => Step::Finish { response },
                Err(error) => Step::Fail { error },
            },
            _ => Step::Fail { error: report_unexpected() },
        }
    }
}

/// Where a check of a configuration that is written as `contents` stands once it was given
/// `events`.
pub open spec fn check_after(
    settings: AppConfigView,
    temp: Seq<u8>,
    contents: Result<Seq<u8>, ApiErrorView>,
    events: Seq<EventView>,
) -> CheckStepView {
    after(
        check_start(temp, contents),
        |state: CheckView, event: EventView| check_next(settings, state, event),
        events,
    )
}

/// Whether `events` are true answers to a check that finds and leaves the disk as in `disks`.
pub open spec fn is_check_run(
    settings: AppConfigView,
    temp: Seq<u8>,
    contents: Result<Seq<u8>, ApiErrorView>,
    events: Seq<EventView>,
    disks: Seq<Disk>,
) -> bool {
    is_run(
        check_start(temp, contents),
        |state: CheckView, event: EventView| check_next(settings, state, event),
        events,
        disks,
    )
}

/// What holds during and after a check.
spec fn check_kept(
    settings: AppConfigView,
    temp: Seq<u8>,
    contents: Result<Seq<u8>, ApiErrorView>,
    start: Disk,
    told: Seq<EventView>,
    step: CheckStepView,
    now: Disk,
) -> bool {
    let words = check_command(settings.check_command, temp);
    match step {
        Step::Perform { action, state } => {
            &&& contents is Ok
            &&& state.temp == temp
            &&& match state.stage {
                CheckStageView::Writing => {
                    &&& told.len() == 0
                    &&& now == start
                    &&& action == (ActionView::WriteFile { path: temp, contents: contents->Ok_0 })
                },
                CheckStageView::Running { display } => {
                    &&& told.len() == 1
                    &&& no_failure(told)
                    &&& same_but(start, now, set![temp])
                    &&& now.read(temp) == Some(contents->Ok_0)
                    &&& words is Ok
                    &&& words->Ok_0.len() > 0
                    &&& action == (ActionView::RunProgram {
                        program: words->Ok_0[0],
                        args: words->Ok_0.drop_first(),
                    })
                },
                CheckStageView::Removing { result } => {
                    &&& told.len() == 2
                    &&& action == (ActionView::RemoveFile { path: temp })
                    &&& result is Ok <==> no_failure(told)
                },
            }
        },
        Step::Finish { response } => {
            &&& told.len() == 3
            &&& !is_failure(told.last()) ==> now.read(temp) is None
        },
        Step::Fail { error } => {
            &&& told.len() <= 3
            &&& told.len() == 3 && !is_failure(told.last()) ==> now.read(temp) is None
            &&& no_failure(told) ==> {
                ||| contents == Err::<Seq<u8>, ApiErrorView>(error)
                ||| words == Err::<Seq<Seq<char>>, ApiErrorView>(error)
            }
        },
    }
}

/// What holds during and after a check holds of every run.
proof fn lemma_check_run(
    settings: AppConfigView,
    temp: Seq<u8>,
    contents: Result<Seq<u8>, ApiErrorView>,
    events: Seq<EventView>,
    disks: Seq<Disk>,
)
    requires
        is_check_run(settings, temp, contents, events, disks),
    ensures
        check_kept(
            settings,
            temp,
            contents,
            disks[0],
            events,
            check_after(settings, temp, contents, events),
            disks.last(),
        ),
{
    let start = disks[0];
    let next = |state: CheckView, event: EventView| check_next(settings, state, event);
    let kept = |told: Seq<EventView>, step: CheckStepView, now: Disk|
        check_kept(settings, temp, contents, start, told, step, now);
    assert forall|
        told: Seq<EventView>,
        action: ActionView,
        state: CheckView,
        before: Disk,
        event: EventView,
        after: Disk,
    |
        kept(told, Step::Perform { action, state }, before) && #[trigger] truthful(
            before,
            action,
            event,
            after,
        ) implies #[trigger] kept(told.push(event), next(state, event), after) by {
        let more = told.push(event);
        assert(more[told.len() as int] == event);
        assert(more.last() == event);
        assert(forall|i: int| 0 <= i < told.len() ==> more[i] == told[i]);
        assert(no_failure(more) <==> no_failure(told) && !is_failure(event));
        if let Ok(words) = command_words(settings.check_command) {
            law_check_names_the_config(words, lossy_text(temp));
        }
    }
    lemma_run_keeps(check_start(temp, contents), next, events, disks, kept);
}

/// Whatever it is answered, a check asks for no more than that its own file be written with the
/// configuration, that the command be run, and that its own file be deleted.
pub proof fn law_check_works_on_its_own_file(
    settings: AppConfigView,
    temp: Seq<u8>,
    contents: Result<Seq<u8>, ApiErrorView>,
    events: Seq<EventView>,
)
    ensures
        check_after(settings, temp, contents, events) matches Step::Perform { action, state } ==> {
            &&& contents is Ok
            &&& state.temp == temp
            &&& {
                ||| action == (ActionView::WriteFile { path: temp, contents: contents->Ok_0 })
                ||| action is RunProgram
                ||| action == (ActionView::RemoveFile { path: temp })
            }
        },
    decreases events.len(),
{
    if events.len() > 0 {
        law_check_works_on_its_own_file(settings, temp, contents, events.drop_last());
    }
}

/// The command of a check is the one in the settings with the path of the check's file, and when
/// it is run, that file holds exactly the configuration and no other file was changed.
pub proof fn law_check_shows_the_config_to_the_command(
    settings: AppConfigView,
    temp: Seq<u8>,
    contents: Result<Seq<u8>, ApiErrorView>,
    events: Seq<EventView>,
    disks: Seq<Disk>,
)
    requires
        is_check_run(settings, temp, contents, events, disks),
    ensures
        check_after(settings, temp, contents, events) matches Step::Perform { action, state } ==> (
        action matches ActionView::RunProgram { program, args } ==> {
            &&& check_command(settings.check_command, temp) == Ok::<Seq<Seq<char>>, ApiErrorView>(
                seq![program] + args,
            )
            &&& disks.last().read(temp) == Some(contents->Ok_0)
            &&& same_but(disks[0], disks.last(), set![temp])
        }),
{
    lemma_check_run(settings, temp, contents, events, disks);
    if let Step::Perform { action, state } = check_after(settings, temp, contents, events) {
        if let ActionView::RunProgram { program, args } = action {
            let words = check_command(settings.check_command, temp)->Ok_0;
            assert(words =~= seq![program] + args);
        }
    }
}

/// A check takes at most three operations. Once the configuration was written and the command
/// tried, whether it ran or not, the check's file is deleted. Where no operation fails, the check
/// fails only if the configuration cannot be written down, which `serialize_config` rules out, or
/// the command in the settings cannot be read.
pub proof fn law_check_cleans_up(
    settings: AppConfigView,
    temp: Seq<u8>,
    contents: Result<Seq<u8>, ApiErrorView>,
    events: Seq<EventView>,
    disks: Seq<Disk>,
)
    requires
        is_check_run(settings, temp, contents, events, disks),
    ensures
        events.len() <= 3,
        events.len() == 3 ==> !(check_after(settings, temp, contents, events) is Perform),
        events.len() == 3 && !is_failure(events.last()) ==> disks.last().read(temp) is None,
        check_after(settings, temp, contents, events) is Finish ==> events.len() == 3,
        no_failure(events) ==> (check_after(settings, temp, contents, events) matches Step::Fail {
            error,
        } ==> {
            ||| contents == Err::<Seq<u8>, ApiErrorView>(error)
            ||| check_command(settings.check_command, temp) == Err::<Seq<Seq<char>>, ApiErrorView>(
                error,
            )
        }),
        no_failure(events) && contents is Ok && check_command(settings.check_command, temp) is Ok
            ==> !(check_after(settings, temp, contents, events) is Fail),
{
    lemma_check_run(settings, temp, contents, events, disks);
}

/// The file of a check stands in the directory for temporary files itself, under the name that the
/// time of the check gives it.
pub proof fn law_check_file_stands_in_the_temp_dir(temp_dir: Seq<u8>, now: TimestampView)
    ensures
        ({
            let path = temp_check_path(temp_dir, now);
            let name = encode_utf8(check_file_name(now));
            &&& temp_dir.len() > 0 && temp_dir.last() != 47u8 ==> path == temp_dir + seq![47u8]
                + name
            &&& temp_dir.len() == 0 || temp_dir.last() == 47u8 ==> path == temp_dir + name
        }),
{
    let text = check_file_name(now);
    law_check_names_hold_the_time(now);
    reveal_strlit("sing-box-config-api-check-");
    assert(text[0] == 's');
    vstd::utf8::encode_utf8_first_scalar(text);
    vstd::utf8::is_ascii_chars_encode_utf8(seq!['s']);
    assert(seq!['s'].drop_first() =~= Seq::empty());
    assert(seq!['s'][0] == 's');
    let head = vstd::utf8::encode_scalar('s' as u32);
    assert(encode_utf8(seq!['s']) =~= head);
    assert(encode_utf8(text) == head + encode_utf8(text.drop_first()));
    law_joining(temp_dir, encode_utf8(text));
}

} // verus!
