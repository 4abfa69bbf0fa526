//! The commands that the host's program is run with, and what is made of how they end.

use vstd::prelude::*;
use vstd::utf8::{decode_utf8, valid_utf8};

use crate::text::{from_utf8_lossy, lossy_text, texts, trim, trimmed};

verus! {

/// A program to run: its arguments, and the environment variables that it is not to see.
#[derive(Debug, PartialEq, Eq)]
pub struct HostCommand {
    pub program: String,
    pub args: Vec<String>,
    pub env_remove: Vec<String>,
}

/// What a [`HostCommand`] holds.
#[verifier::ext_equal]
pub struct CommandView {
    pub program: Seq<char>,
    pub args: Seq<Seq<char>>,
    pub env_remove: Seq<Seq<char>>,
}

impl View for HostCommand {
    type V = CommandView;

    open spec fn view(&self) -> CommandView {
        CommandView {
            program: self.program@,
            args: texts(self.args@),
            env_remove: texts(self.env_remove@),
        }
    }
}

/// How a program ended: whether well, with what exit code, how the system words it, and what it
/// wrote.
#[derive(Debug, PartialEq, Eq)]
pub struct CommandOutput {
    pub success: bool,
    pub code: Option<i32>,
    pub status: String,
    pub stdout: Vec<u8>,
    pub stderr: Vec<u8>,
}

/// A command with the given arguments that sees the whole environment.
pub open spec fn plain_command(program: Seq<char>, args: Seq<Seq<char>>) -> CommandView {
    CommandView { program, args, env_remove: seq![] }
}

/// What is said of a command that failed: what it wrote to its error output, else what it wrote
/// to its output, else how it ended.
pub open spec fn failure_words(
    stderr: Seq<char>,
    stdout: Seq<char>,
    status: Seq<char>,
) -> Seq<char> {
    if trimmed(stderr).len() > 0 {
        trimmed(stderr)
    } else if trimmed(stdout).len() > 0 {
        trimmed(stdout)
    } else {
        "exit status "@ + status
    }
}

/// What is said of a command that failed.
pub open spec fn failure_text(output: CommandOutput) -> Seq<char> {
    failure_words(lossy_text(output.stderr@), lossy_text(output.stdout@), output.status@)
}

/// What is said of a command that failed, given the texts that it wrote.
pub fn failure_message(stderr: &str, stdout: &str, status: &str) -> (r: String)
    ensures
        r@ == failure_words(stderr@, stdout@, status@),
{
    let errors = trim(stderr);
    if !errors.as_str().is_empty() {
        return errors;
    }
    let words = trim(stdout);
    if !words.as_str().is_empty() {
        return words;
    }
    let mut message = "exit status ".to_owned();
    message.append(status);
    message
}

/// What is said of a command that failed.
pub fn command_error(output: &CommandOutput) -> (r: String)
    ensures
        r@ == failure_text(*output),
        valid_utf8(output.stderr@) && valid_utf8(output.stdout@) ==> r@ == failure_words(
            decode_utf8(output.stderr@),
            decode_utf8(output.stdout@),
            output.status@,
        ),
{
    failure_message(
        from_utf8_lossy(output.stderr.as_slice()).as_str(),
        from_utf8_lossy(output.stdout.as_slice()).as_str(),
        output.status.as_str(),
    )
}

/// The texts of string slices.
pub open spec fn slices(parts: Seq<&str>) -> Seq<Seq<char>> {
    parts.map_values(|part: &str| part@)
}

/// A command with the given arguments that sees the whole environment.
pub fn command(program: &str, parts: &[&str]) -> (r: HostCommand)
    ensures
        r@ == plain_command(program@, slices(parts@)),
{
    let mut args: Vec<String> = Vec::new();
    let mut i: usize = 0;
    while i < parts.len()
        invariant
            i <= parts@.len(),
            args@.len() == i,
            forall|j: int| 0 <= j < i ==> #[trigger] args@[j]@ == parts@[j]@,
        decreases parts@.len() - i,
    {
        args.push(parts[i].to_owned());
        i += 1;
    }
    let env_remove: Vec<String> = Vec::new();
    assert(texts(args@) =~= slices(parts@));
    assert(texts(env_remove@) =~= seq![]);
    HostCommand { program: program.to_owned(), args, env_remove }
}

/// A command that failed is told by its error output unless that is blank, else by its output
/// unless that is blank, else by how it ended.
pub proof fn law_failures_are_told(stderr: Seq<char>, stdout: Seq<char>, status: Seq<char>)
    ensures
        trimmed(stderr).len() > 0 ==> failure_words(stderr, stdout, status) == trimmed(stderr),
        trimmed(stderr).len() == 0 && trimmed(stdout).len() > 0 ==> failure_words(
            stderr,
            stdout,
            status,
        ) == trimmed(stdout),
        trimmed(stderr).len() == 0 && trimmed(stdout).len() == 0 ==> failure_words(
            stderr,
            stdout,
            status,
        ) == "exit status "@ + status,
{
}

/// What is said of a command that failed is said by what it wrote and how it ended.
pub proof fn law_failures_are_told_by_the_output(output: CommandOutput)
    ensures
        failure_text(output) == failure_words(
            lossy_text(output.stderr@),
            lossy_text(output.stdout@),
            output.status@,
        ),
{
}

/// The view of a command shows its program, its arguments and what it is not to see, each at its
/// place.
pub proof fn law_a_command_is_its_view(
    command: HostCommand,
    parts: Seq<&str>,
    program: Seq<char>,
    args: Seq<Seq<char>>,
    i: int,
)
    ensures
        command@.program == command.program@,
        command@.args.len() == command.args@.len(),
        0 <= i < command.args@.len() ==> command@.args[i] == command.args@[i]@,
        command@.env_remove.len() == command.env_remove@.len(),
        0 <= i < command.env_remove@.len() ==> command@.env_remove[i] == command.env_remove@[i]@,
        slices(parts).len() == parts.len(),
        0 <= i < parts.len() ==> slices(parts)[i] == parts[i]@,
        plain_command(program, args).program == program,
        plain_command(program, args).args == args,
        plain_command(program, args).env_remove.len() == 0,
{
}

} // verus!
