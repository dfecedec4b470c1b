//! Commands that the service runs.
use crate::error::{internal, ApiError, ApiErrorView};
use crate::io::{CommandOutput, CommandOutputView, IoFailure, IoFailureView};
use crate::path::UnixPath;
use crate::text::{
    concat4, contains, contains_text, law_containing, law_replacing_nothing_changes_nothing,
    law_texts_without_the_pattern_are_kept, replace, replaced, stands_in, texts,
};
use crate::utf8::{decode_lossy, lossy_text};
use vstd::prelude::*;

verus! {

/// What stands in a command for the path of the configuration to check.
pub const PLACEHOLDER: &'static str = "{config_path}";

/// What `shell_words::split` makes of a command line; nothing where a quote is not closed.
pub uninterp spec fn shell_split(line: Seq<char>) -> Option<Seq<Seq<char>>>;

/// What `shell_words::join` makes of words.
pub uninterp spec fn shell_join(words: Seq<Seq<char>>) -> Seq<char>;

/// Calls `shell_words::split`. The contract names the words, and gives the text of its only
/// error.
#[verifier::external_body]
fn split_words(line: &str) -> (r: Result<Vec<String>, String>)
    ensures
        r matches Ok(words) ==> shell_split(line@) == Some(texts(words@)),
        r matches Err(error) ==> shell_split(line@) is None && error@ == "missing closing quote"@,
{
    shell_words::split(line).map_err(|error| error.to_string())
}

/// Calls `shell_words::join`. The contract names the command line, and says that it splits
/// into the words again.
#[verifier::external_body]
fn join_words(words: &Vec<String>) -> (line: String)
    ensures
        line@ == shell_join(texts(words@)),
        shell_split(line@) == Some(texts(words@)),
{
    shell_words::join(words)
}

/// The words of a command line, or why it has none.
pub open spec fn command_words(line: Seq<char>) -> Result<Seq<Seq<char>>, ApiErrorView> {
    words_or_error(line, shell_split(line))
}

/// The words into which a command line was split, or the report that it could not be.
pub open spec fn words_or_error(line: Seq<char>, words: Option<Seq<Seq<char>>>) -> Result<
    Seq<Seq<char>>,
    ApiErrorView,
> {
    match words {
        Some(words) => Ok(words),
        None => Err(
            internal("failed to parse command '"@ + line + "': "@ + "missing closing quote"@),
        ),
    }
}

/// The value of the model that the words of a command stand for.
pub open spec fn words_result(r: Result<Vec<String>, ApiError>) -> Result<
    Seq<Seq<char>>,
    ApiErrorView,
> {
    match r {
        Ok(words) => Ok(texts(words@)),
        Err(error) => Err(error@),
    }
}

/// Splits a command line into words.
pub fn split_command(command_line: &str) -> (r: Result<Vec<String>, ApiError>)
    ensures
        words_result(r) == command_words(command_line@),
{
    match split_words(command_line) {
        Ok(words) => Ok(words),
        Err(error) => Err(
            ApiError::internal(
                concat4("failed to parse command '", command_line, "': ", error.as_str()),
            ),
        ),
    }
}

/// Whether the placeholder stands in any of the words.
pub open spec fn has_placeholder(words: Seq<Seq<char>>) -> bool {
    exists|i: int| 0 <= i < words.len() && contains_text(#[trigger] words[i], PLACEHOLDER@)
}

/// The words with `path` in the place of every placeholder, or else with `path` as one more
/// word at the end.
pub open spec fn with_config_path(words: Seq<Seq<char>>, path: Seq<char>) -> Seq<Seq<char>> {
    if has_placeholder(words) {
        words.map_values(|word: Seq<char>| replaced(word, PLACEHOLDER@, path))
    } else {
        words.push(path)
    }
}

/// Puts a path into the words of a command.
pub fn put_config_path(words: Vec<String>, path: &str) -> (r: Vec<String>)
    ensures
        texts(r@) == with_config_path(texts(words@), path@),
{
    let n: usize = words.len();
    let mut r: Vec<String> = Vec::new();
    let mut found = false;
    let mut i: usize = 0;
    let ghost given = texts(words@);
    let ghost put = |word: Seq<char>| replaced(word, PLACEHOLDER@, path@);
    proof {
        reveal_strlit("{config_path}");
        assert(PLACEHOLDER@.len() > 0);
        assert(texts(r@) =~= given.take(0).map_values(put));
    }
    while i < n
        invariant
            n == words@.len(),
            i <= n,
            given == texts(words@),
            put == (|word: Seq<char>| replaced(word, PLACEHOLDER@, path@)),
            PLACEHOLDER@.len() > 0,
            texts(r@) == given.take(i as int).map_values(put),
            found <==> exists|k: int|
                0 <= k < i && contains_text(#[trigger] given[k], PLACEHOLDER@),
        decreases n - i,
    {
        let word = words[i].as_str();
        let ghost before = texts(r@);
        assert(given[i as int] == word@);
        if contains(word, PLACEHOLDER) {
            r.push(replace(word, PLACEHOLDER, path));
            found = true;
        } else {
            proof {
                law_replacing_nothing_changes_nothing(word@, PLACEHOLDER@, path@);
            }
            r.push(word.to_owned());
        }
        proof {
            assert(texts(r@) =~= before.push(put(word@)));
            assert(given.take(i + 1) =~= given.take(i as int).push(word@));
            assert(before.push(put(word@)) =~= given.take(i + 1).map_values(put));
        }
        i = i + 1;
    }
    assert(given.take(n as int) =~= given);
    if !found {
        assert(given.map_values(put) =~= given) by {
            assert forall|k: int| 0 <= k < given.len() implies put(given[k]) == given[k] by {
                law_replacing_nothing_changes_nothing(given[k], PLACEHOLDER@, path@);
            }
        }
        r.push(path.to_owned());
        assert(texts(r@) =~= given.push(path@));
    }
    r
}

/// The words of the command that checks the configuration at `path`.
pub open spec fn check_command(template: Seq<char>, path: Seq<u8>) -> Result<
    Seq<Seq<char>>,
    ApiErrorView,
> {
    match command_words(template) {
        Ok(words) => Ok(with_config_path(words, lossy_text(path))),
        Err(error) => Err(error),
    }
}

/// Builds the command that checks the configuration at `config_path`.
pub fn build_check_command_parts(command_template: &str, config_path: &UnixPath) -> (r: Result<
    Vec<String>,
    ApiError,
>)
    ensures
        words_result(r) == check_command(command_template@, config_path@),
{
    let path = config_path.display();
    match split_command(command_template) {
        Ok(words) => Ok(put_config_path(words, path.as_str())),
        Err(error) => Err(error),
    }
}

/// A command that is ready to run.
#[derive(Debug)]
pub struct PreparedCommand {
    /// The command as a line that a shell would read the same way.
    pub display: String,
    pub program: String,
    pub args: Vec<String>,
}

/// A command that is ready to run, as a value of the model.
pub struct PreparedCommandView {
    pub display: Seq<char>,
    pub program: Seq<char>,
    pub args: Seq<Seq<char>>,
}

impl View for PreparedCommand {
    type V = PreparedCommandView;

    open spec fn view(&self) -> PreparedCommandView {
        PreparedCommandView {
            display: self.display@,
            program: self.program@,
            args: texts(self.args@),
        }
    }
}

/// The value of the model that a prepared command stands for.
pub open spec fn prepared_result(r: Result<PreparedCommand, ApiError>) -> Result<
    PreparedCommandView,
    ApiErrorView,
> {
    match r {
        Ok(command) => Ok(command@),
        Err(error) => Err(error@),
    }
}

/// The command that words stand for: a program and its arguments.
pub open spec fn prepared(words: Seq<Seq<char>>) -> Result<PreparedCommandView, ApiErrorView> {
    if words.len() == 0 {
        Err(internal("configured command is empty"@))
    } else {
        Ok(
            PreparedCommandView {
                display: shell_join(words),
                program: words[0],
                args: words.drop_first(),
            },
        )
    }
}

/// Prepares the command that words stand for. Its display splits into these words again.
pub fn prepare_command(parts: Vec<String>) -> (r: Result<PreparedCommand, ApiError>)
    ensures
        prepared_result(r) == prepared(texts(parts@)),
        r matches Ok(command) ==> shell_split(command@.display) == Some(texts(parts@)),
{
    let display = join_words(&parts);
    let mut args = parts;
    let ghost words = texts(args@);
    if args.len() == 0 {
        return Err(ApiError::internal("configured command is empty".to_owned()));
    }
    assert(words[0] == args@[0]@);
    let program = args.remove(0);
    assert(texts(args@) =~= words.drop_first());
    Ok(PreparedCommand { display, program, args })
}

/// The command that a command line stands for.
pub open spec fn command_of_line(line: Seq<char>) -> Result<PreparedCommandView, ApiErrorView> {
    match command_words(line) {
        Ok(words) => prepared(words),
        Err(error) => Err(error),
    }
}

/// Prepares the command that a command line stands for. Its display splits into the same
/// words as the command line.
pub fn run_command(command_line: &str) -> (r: Result<PreparedCommand, ApiError>)
    ensures
        prepared_result(r) == command_of_line(command_line@),
        r matches Ok(command) ==> shell_split(command@.display) == shell_split(command_line@),
{
    match split_command(command_line) {
        Ok(parts) => prepare_command(parts),
        Err(error) => Err(error),
    }
}

/// What is reported of a command that was run.
#[derive(Debug)]
pub struct CommandResponse {
    pub command: String,
    pub success: bool,
    pub exit_code: Option<i32>,
    pub stdout: String,
    pub stderr: String,
}

/// What is reported of a command that was run, as a value of the model.
pub struct CommandResponseView {
    pub command: Seq<char>,
    pub success: bool,
    pub exit_code: Option<i32>,
    pub stdout: Seq<char>,
    pub stderr: Seq<char>,
}

impl View for CommandResponse {
    type V = CommandResponseView;

    open spec fn view(&self) -> CommandResponseView {
        CommandResponseView {
            command: self.command@,
            success: self.success,
            exit_code: self.exit_code,
            stdout: self.stdout@,
            stderr: self.stderr@,
        }
    }
}

/// The report on a command that was run, or on why it was not.
pub open spec fn command_report(
    display: Seq<char>,
    output: Result<CommandOutputView, IoFailureView>,
) -> Result<CommandResponseView, ApiErrorView> {
    match output {
        Ok(output) => Ok(
            CommandResponseView {
                command: display,
                success: output.success,
                exit_code: output.exit_code,
                stdout: lossy_text(output.stdout),
                stderr: lossy_text(output.stderr),
            },
        ),
        Err(failure) => Err(
            internal("failed to execute command '"@ + display + "': "@ + failure.message),
        ),
    }
}

/// The value of the model that the report on a command stands for.
pub open spec fn report_result(r: Result<CommandResponse, ApiError>) -> Result<
    CommandResponseView,
    ApiErrorView,
> {
    match r {
        Ok(response) => Ok(response@),
        Err(error) => Err(error@),
    }
}

/// The value of the model that the output of a command stands for.
pub open spec fn output_result(r: Result<CommandOutput, IoFailure>) -> Result<
    CommandOutputView,
    IoFailureView,
> {
    match r {
        Ok(output) => Ok(output@),
        Err(failure) => Err(failure@),
    }
}

/// Reports on a command that was run, or on why it was not.
pub fn report_command(display: String, output: Result<CommandOutput, IoFailure>) -> (r: Result<
    CommandResponse,
    ApiError,
>)
    ensures
        report_result(r) == command_report(display@, output_result(output)),
        r is Ok <==> output is Ok,
        r matches Ok(told) ==> {
            &&& told.command@ == display@
            &&& told.success == output->Ok_0.success
            &&& told.exit_code == output->Ok_0.exit_code
            &&& told.stdout@ == lossy_text(output->Ok_0.stdout@)
            &&& told.stderr@ == lossy_text(output->Ok_0.stderr@)
        },
{
    match output {
        Ok(output) => Ok(
            CommandResponse {
                command: display,
                success: output.success,
                exit_code: output.exit_code,
                stdout: decode_lossy(output.stdout.as_slice()),
                stderr: decode_lossy(output.stderr.as_slice()),
            },
        ),
        Err(failure) => Err(
            ApiError::internal(
                concat4(
                    "failed to execute command '",
                    display.as_str(),
                    "': ",
                    failure.message.as_str(),
                ),
            ),
        ),
    }
}

/// The path of the configuration is handed to every check, as a word or as a part of one.
pub proof fn law_check_names_the_config(words: Seq<Seq<char>>, path: Seq<char>)
    ensures
        exists|i: int|
            0 <= i < with_config_path(words, path).len() && contains_text(
                #[trigger] with_config_path(words, path)[i],
                path,
            ),
{
    let r = with_config_path(words, path);
    if has_placeholder(words) {
        let i = choose|i: int|
            0 <= i < words.len() && contains_text(#[trigger] words[i], PLACEHOLDER@);
        reveal_strlit("{config_path}");
        lemma_replacement_occurs(words[i], PLACEHOLDER@, path);
        assert(r[i] == replaced(words[i], PLACEHOLDER@, path));
    } else {
        assert(r.last().subrange(0, path.len() as int) =~= path);
        assert(crate::text::occurs_at(r.last(), path, 0));
    }
}

/// What replaces a text that occurs, occurs afterwards.
proof fn lemma_replacement_occurs(text: Seq<char>, pattern: Seq<char>, with: Seq<char>)
    requires
        pattern.len() > 0,
        contains_text(text, pattern),
    ensures
        contains_text(replaced(text, pattern, with), with),
    decreases text.len(),
{
    let at = choose|at: int| crate::text::occurs_at(text, pattern, at);
    let r = replaced(text, pattern, with);
    if crate::text::occurs_at(text, pattern, 0) {
        assert(r.subrange(0, with.len() as int) =~= with);
        assert(crate::text::occurs_at(r, with, 0));
    } else {
        let rest = text.drop_first();
        assert(rest.subrange(at - 1, at - 1 + pattern.len()) =~= text.subrange(
            at,
            at + pattern.len(),
        ));
        assert(crate::text::occurs_at(rest, pattern, at - 1));
        lemma_replacement_occurs(rest, pattern, with);
        let inner = replaced(rest, pattern, with);
        let k = choose|k: int| crate::text::occurs_at(inner, with, k);
        assert(r.subrange(k + 1, k + 1 + with.len()) =~= inner.subrange(k, k + with.len()));
        assert(crate::text::occurs_at(r, with, k + 1));
    }
}

/// A command line has the words into which a shell splits it. One that cannot be split is an error
/// of the server, and the report quotes the line.
pub proof fn law_command_lines_have_the_words_of_a_shell(line: Seq<char>)
    ensures
        shell_split(line) matches Some(words) ==> command_words(line) == Ok::<
            Seq<Seq<char>>,
            ApiErrorView,
        >(words),
        shell_split(line) is None ==> {
            &&& command_words(line) is Err
            &&& command_words(line)->Err_0.status == 500
            &&& command_words(line)->Err_0.message == "failed to parse command '"@ + line
                + "': missing closing quote"@
        },
{
    reveal_strlit("': ");
    reveal_strlit("missing closing quote");
    reveal_strlit("': missing closing quote");
    assert("': "@ + "missing closing quote"@ =~= "': missing closing quote"@);
    let head = "failed to parse command '"@ + line;
    assert(head + "': "@ + "missing closing quote"@ =~= head + "': missing closing quote"@);
}

/// The command of a check is the configured one with the path of the file that is checked in the
/// place of each placeholder; words without a placeholder are kept. Where no word has one, the path
/// is one more word at the end.
pub proof fn law_check_command_holds_the_path(
    template: Seq<char>,
    path: Seq<u8>,
    words: Seq<Seq<char>>,
)
    requires
        shell_split(template) == Some(words),
    ensures
        ({
            let r = check_command(template, path)->Ok_0;
            let holder = "{config_path}"@;
            let found = exists|i: int|
                0 <= i < words.len() && stands_in(holder, #[trigger] words[i]);
            &&& check_command(template, path) is Ok
            &&& !found ==> r == words.push(lossy_text(path))
            &&& found ==> r.len() == words.len()
            &&& forall|i: int|
                0 <= i < words.len() && !stands_in(holder, words[i]) ==> #[trigger] r[i] == words[i]
            &&& found ==> forall|i: int|
                0 <= i < words.len() ==> #[trigger] r[i] == replaced(
                    words[i],
                    holder,
                    lossy_text(path),
                )
        }),
{
    let r = with_config_path(words, lossy_text(path));
    let holder = "{config_path}"@;
    assert forall|i: int| 0 <= i < words.len() implies (contains_text(words[i], holder)
        <==> stands_in(holder, #[trigger] words[i])) by {
        law_containing(words[i], holder);
    }
    if has_placeholder(words) {
        let i = choose|i: int|
            0 <= i < words.len() && contains_text(#[trigger] words[i], PLACEHOLDER@);
        assert(stands_in(holder, words[i]));
    }
    assert forall|i: int| 0 <= i < words.len() && !stands_in(holder, words[i]) implies (#[trigger]
    r[i]) == words[i] by {
        law_texts_without_the_pattern_are_kept(words[i], holder, lossy_text(path));
    }
}

/// The first word of a command is the program, the others are its arguments, and all of them make
/// up the command that is told. A command without words is an error of the server.
pub proof fn law_first_word_is_the_program(words: Seq<Seq<char>>)
    ensures
        words.len() > 0 ==> {
            &&& prepared(words) is Ok
            &&& seq![prepared(words)->Ok_0.program] + prepared(words)->Ok_0.args == words
            &&& prepared(words)->Ok_0.display == shell_join(words)
        },
        words.len() == 0 ==> {
            &&& prepared(words) is Err
            &&& prepared(words)->Err_0.status == 500
            &&& prepared(words)->Err_0.message == "configured command is empty"@
        },
{
    if words.len() > 0 {
        assert(seq![words[0]] + words.drop_first() =~= words);
    }
}

/// The report on a command tells what the program left behind: whether it succeeded, its exit code,
/// and what it wrote to each of its two outputs. Of one that did not start it tells why.
pub proof fn law_reports_tell_what_was_left_behind(
    display: Seq<char>,
    output: Result<CommandOutputView, IoFailureView>,
)
    ensures
        output matches Ok(left) ==> {
            let told = command_report(display, output)->Ok_0;
            &&& command_report(display, output) is Ok
            &&& told.command == display
            &&& told.success == left.success
            &&& told.exit_code == left.exit_code
            &&& told.stdout == lossy_text(left.stdout)
            &&& told.stderr == lossy_text(left.stderr)
        },
        output matches Err(failure) ==> {
            let error = command_report(display, output)->Err_0;
            &&& command_report(display, output) is Err
            &&& error.status == 500
            &&& error.message == "failed to execute command '"@ + display + "': "@ + failure.message
        },
{
}

} // verus!
