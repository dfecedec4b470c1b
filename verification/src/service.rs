//! Commands that show or change the state of the `sing-box` service.
use crate::command::{
    command_of_line, command_report, report_command, run_command, shell_split, CommandResponse,
    CommandResponseView,
};
use crate::config::AppConfig;
use crate::error::{ApiError, ApiErrorView};
use crate::io::{report_unexpected, unexpected, Action, ActionView, Event, EventView, Step};
use crate::text::texts;
use crate::utf8::lossy_text;
use vstd::prelude::*;

verus! {

/// A command that is being run.
#[derive(Debug)]
pub struct ServiceCommand {
    /// The command as it is told.
    pub display: String,
}

/// A command that is being run, as a value of the model.
pub struct ServiceCommandView {
    pub display: Seq<char>,
}

impl View for ServiceCommand {
    type V = ServiceCommandView;

    open spec fn view(&self) -> ServiceCommandView {
        ServiceCommandView { display: self.display@ }
    }
}

/// The next step of a command.
pub type ServiceStep = Step<Action, ServiceCommand, CommandResponse, ApiError>;

/// The next step of a command, as a value of the model.
pub type ServiceStepView = Step<
    ActionView,
    ServiceCommandView,
    CommandResponseView,
    ApiErrorView,
>;

/// The first step of the command that a command line stands for.
pub open spec fn service_start(command_line: Seq<char>) -> ServiceStepView {
    match command_of_line(command_line) {
        Ok(command) => Step::Perform {
            action: ActionView::RunProgram { program: command.program, args: command.args },
            state: ServiceCommandView { display: command.display },
        },
        Err(error) => Step::Fail { error },
    }
}

/// What follows the answer to a command.
pub open spec fn service_next(state: ServiceCommandView, event: EventView) -> ServiceStepView {
    match event {
        EventView::Output(output) => match command_report(state.display, output) {
            Ok(response) => Step::Finish { response },
            Err(error) => Step::Fail { error },
        },
        _ => Step::Fail { error: unexpected() },
    }
}

impl ServiceCommand {
    /// Starts the command that a command line stands for.
    pub fn start(command_line: &str) -> (r: ServiceStep)
        ensures
            r@ == service_start(command_line@),
            r matches Step::Perform { action, state } ==> (action matches Action::RunProgram {
                program,
                args,
            } && shell_split(command_line@) == Some(seq![program@] + texts(args@)) && shell_split(
                state.display@,
            ) == Some(seq![program@] + texts(args@))),
    {
        proof {
            law_command_line_is_run_as_it_says(command_line@);
        }
        match run_command(command_line) {
            Ok(command) => Step::Perform {
                action: Action::RunProgram { program: command.program, args: command.args },
                state: ServiceCommand { display: command.display },
            },
            Err(error) => Step::Fail { error },
        }
    }

    /// Starts the command that shows the state of the service.
    pub fn start_status(settings: &AppConfig) -> (r: ServiceStep)
        ensures
            r@ == service_start(settings@.status_command),
    {
        ServiceCommand::start(settings.status_command.as_str())
    }

    /// Starts the command that restarts the service.
    pub fn start_restart(settings: &AppConfig) -> (r: ServiceStep)
        ensures
            r@ == service_start(settings@.restart_command),
    {
        ServiceCommand::start(settings.restart_command.as_str())
    }

    /// Goes on with the answer to the operation that was asked for.
    pub fn next(self, event: Event) -> (r: ServiceStep)
        ensures
            r@ == service_next(self@, event@),
            event matches Event::Output(Ok(output)) ==> (r matches Step::Finish { response }
                && response.command@ == self.display@ && response.success == output.success
                && response.exit_code == output.exit_code && response.stdout@ == lossy_text(
                output.stdout@,
            ) && response.stderr@ == lossy_text(output.stderr@)),
            event matches Event::Output(Err(failure)) ==> r is Fail,
    {
        match event {
            Event::Output(output) => match report_command(self.display, output) {
                Ok(response) => Step::Finish { response },
                Err(error) => Step::Fail { error },
            },
            _ => Step::Fail { error: report_unexpected() },
        }
    }
}

/// What is run is exactly what the command line says: its first word is the program, and the
/// others are the arguments. A command line without words, or with an open quote, runs nothing.
pub proof fn law_command_line_is_run_as_it_says(command_line: Seq<char>)
    ensures
        match service_start(command_line) {
            Step::Perform { action, state } => {
                &&& action is RunProgram
                &&& shell_split(command_line) == Some(
                    seq![action->program] + action->args,
                )
            },
            Step::Finish { response } => false,
            Step::Fail { error } => shell_split(command_line) is None || shell_split(
                command_line,
            )->0.len() == 0,
        },
{
    if let Some(words) = shell_split(command_line) {
        if words.len() > 0 {
            assert(words =~= seq![words[0]] + words.drop_first());
        }
    }
}

} // verus!
