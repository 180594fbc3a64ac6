//! What is decided about the operating system's shell and clipboard.

use vstd::prelude::*;
use vstd::string::StringExecFns;
use crate::error::{Error, ErrorView};

verus! {

/// The shell that is used where the environment names none.
pub const DEFAULT_SHELL: &'static str = "/bin/sh";

/// The shell to use: the one that the environment names, or `/bin/sh`.
pub fn get_current_shell(configured: Option<String>) -> (r: String)
    ensures
        r@ == match configured {
            Some(shell) => shell@,
            None => DEFAULT_SHELL@,
        },
{
    match configured {
        Some(shell) => shell,
        None => String::from_str(DEFAULT_SHELL),
    }
}

/// The program that takes text for the clipboard on the operating system
/// `os`: `pbcopy` on macOS, `xclip` elsewhere.
pub fn clipboard_tool(os: &str) -> (r: &'static str)
    ensures
        r@ == if os@ == "macos"@ {
            "pbcopy"@
        } else {
            "xclip"@
        },
{
    if String::from_str(os) == String::from_str("macos") {
        "pbcopy"
    } else {
        "xclip"
    }
}

/// What the end of a shell command means: success where the shell reported
/// success, and `CommandFailed` with the command otherwise.
pub open spec fn finished(command: Seq<char>, success: bool) -> Result<(), ErrorView> {
    if success {
        Ok(())
    } else {
        Err(ErrorView::CommandFailed { command })
    }
}

/// What the end of a shell command means: success where the shell reported
/// success, and `CommandFailed` with the command otherwise.
pub fn run_cmd(command: &str, success: bool) -> (r: Result<(), Error>)
    ensures
        match r {
            Ok(()) => finished(command@, success) == Ok::<(), ErrorView>(()),
            Err(error) => finished(command@, success) == Err::<(), ErrorView>(error@),
        },
{
    if success {
        Ok(())
    } else {
        Err(Error::CommandFailed { command: String::from_str(command) })
    }
}

} // verus!
