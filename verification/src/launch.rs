//! How the program is started, and the programs that it starts besides.

use vstd::prelude::*;

use crate::environment::{Environment, BIN_PATH, PROJECT_KEY};
use crate::host::{command, plain_command, CommandView, HostCommand};
use crate::text::str_eq;

verus! {

/// What the program is to do.
#[derive(Clone, Copy, Debug, PartialEq, Eq, Structural)]
pub enum Mode {
    /// Show the board.
    Board,
    /// Have the host open a pane with the board.
    OpenPane,
    /// Show the first ticket in the dock.
    Dock,
}

/// What the program is to do, by its first argument.
pub open spec fn mode_of(argument: Option<Seq<char>>) -> Mode {
    match argument {
        Some(text) => if text == "tui"@ {
            Mode::Board
        } else if text == "open"@ {
            Mode::OpenPane
        } else {
            Mode::Dock
        },
        None => Mode::Dock,
    }
}

/// What the program is to do, by its first argument.
pub fn mode(argument: &Option<String>) -> (r: Mode)
    ensures
        r == mode_of(
            match argument {
                Some(text) => Some(text@),
                None => None,
            },
        ),
{
    match argument {
        Some(text) => if str_eq(text.as_str(), "tui") {
            Mode::Board
        } else if str_eq(text.as_str(), "open") {
            Mode::OpenPane
        } else {
            Mode::Dock
        },
        None => Mode::Dock,
    }
}

/// The project that the board starts with, empty where none is set.
pub fn default_project(environment: &Environment) -> (r: String)
    ensures
        r@ == match environment.value_of(PROJECT_KEY@) {
            Some(key) => key,
            None => seq![],
        },
{
    match environment.var(PROJECT_KEY) {
        Some(key) => key,
        None => String::new(),
    }
}

/// The command that opens a pane with the board.
pub open spec fn pane_command(bin: Seq<char>) -> CommandView {
    plain_command(
        bin,
        seq![
            "module"@,
            "pane"@,
            "open"@,
            "adexaja.luvus-jira"@,
            "jira-board"@,
            "--placement"@,
            "tab"@,
        ],
    )
}

/// The command that opens a pane with the board, or that the host's program is not known.
pub fn open_tui_pane(environment: &Environment) -> (r: Result<HostCommand, String>)
    ensures
        match environment.value_of(BIN_PATH@) {
            Some(bin) => r matches Ok(next) && next@ == pane_command(bin),
            None => r matches Err(message) && message@ == "Missing LUVUS_BIN_PATH"@,
        },
{
    match environment.var(BIN_PATH) {
        Some(bin) => {
            let next = command(
                bin.as_str(),
                &[
                    "module",
                    "pane",
                    "open",
                    "adexaja.luvus-jira",
                    "jira-board",
                    "--placement",
                    "tab",
                ],
            );
            assert(next@.args =~= pane_command(bin@).args);
            Ok(next)
        },
        None => Err("Missing LUVUS_BIN_PATH".to_owned()),
    }
}

/// The command that opens an address in a browser. `macos` tells that system from the others.
pub fn open_url(url: &str, macos: bool) -> (r: HostCommand)
    ensures
        r@ == plain_command(
            if macos {
                "open"@
            } else {
                "xdg-open"@
            },
            seq![url@],
        ),
{
    let r = command(
        if macos {
            "open"
        } else {
            "xdg-open"
        },
        &[url],
    );
    assert(r@.args =~= seq![url@]);
    r
}

/// What is said of how a program ended: nothing where it ended well, the given words where it
/// did not, and why where it could not be run.
pub fn ended(outcome: Result<bool, String>, failed: &str) -> (r: Result<(), String>)
    ensures
        match outcome {
            Ok(success) => if success {
                r is Ok
            } else {
                r matches Err(message) && message@ == failed@
            },
            Err(cause) => r matches Err(message) && message@ == cause@,
        },
{
    match outcome {
        Ok(success) => if success {
            Ok(())
        } else {
            Err(failed.to_owned())
        },
        Err(cause) => Err(cause),
    }
}

/// Whether the pane was opened.
pub fn pane_opened(outcome: Result<bool, String>) -> (r: Result<(), String>)
    ensures
        match outcome {
            Ok(success) => if success {
                r is Ok
            } else {
                r matches Err(message) && message@ == "Luvus could not open the Jira pane"@
            },
            Err(cause) => r matches Err(message) && message@ == cause@,
        },
{
    ended(outcome, "Luvus could not open the Jira pane")
}

/// Whether an address was opened.
pub fn url_opened(outcome: Result<bool, String>) -> (r: Result<(), String>)
    ensures
        match outcome {
            Ok(success) => if success {
                r is Ok
            } else {
                r matches Err(message) && message@ == "URL opener failed"@
            },
            Err(cause) => r matches Err(message) && message@ == cause@,
        },
{
    ended(outcome, "URL opener failed")
}

/// The program shows the board for `tui`, opens a pane for `open`, and else shows the dock.
pub proof fn law_what_the_program_does(argument: Option<Seq<char>>)
    ensures
        mode_of(argument) == Mode::Board <==> argument == Some(seq!['t', 'u', 'i']),
        mode_of(argument) == Mode::OpenPane <==> argument == Some(seq!['o', 'p', 'e', 'n']),
{
    reveal_strlit("tui");
    reveal_strlit("open");
    assert("tui"@ =~= seq!['t', 'u', 'i']);
    assert("open"@ =~= seq!['o', 'p', 'e', 'n']);
    assert("tui"@.len() != "open"@.len());
}

/// The pane is opened for the board of this module, in a tab.
pub proof fn law_how_the_pane_is_opened(bin: Seq<char>)
    ensures
        pane_command(bin).program == bin,
        pane_command(bin).args =~= seq![
            "module"@,
            "pane"@,
            "open"@,
            "adexaja.luvus-jira"@,
            "jira-board"@,
            "--placement"@,
            "tab"@,
        ],
        pane_command(bin).env_remove.len() == 0,
{
}

} // verus!
