//! The text of the scripts that expose an environment's executables: the
//! environment's activation script followed by the call of the executable
//! with all the arguments that the script was given.

use vstd::prelude::*;
use vstd::string::*;

verus! {

/// The shells that scripts are written for.
#[derive(Debug, Clone, Copy, PartialEq, Eq, Structural)]
pub enum ShellKind {
    /// `sh` and the shells that follow it.
    Bash,
    /// `cmd.exe`.
    CmdExe,
    /// PowerShell.
    PowerShell,
}

/// How a script of the shell names all the arguments that it was given.
pub open spec fn catch_all_arg(shell: ShellKind) -> Seq<char> {
    match shell {
        ShellKind::CmdExe => "%*"@,
        ShellKind::PowerShell => "@args"@,
        ShellKind::Bash => "\"$@\""@,
    }
}

/// Returns the text that stands for all arguments passed to a script.
pub fn get_catch_all_arg(shell: ShellKind) -> (r: &'static str)
    ensures
        r@ == catch_all_arg(shell),
{
    match shell {
        ShellKind::CmdExe => "%*",
        ShellKind::PowerShell => "@args",
        ShellKind::Bash => "\"$@\"",
    }
}

/// The line that runs a command: the command and its arguments with a space
/// between, on a line of its own, behind an `@` for `cmd.exe`.
pub open spec fn command_line(cmd_exe: bool, command: Seq<char>, arguments: Seq<char>) -> Seq<char> {
    (if cmd_exe {
        "@"@
    } else {
        Seq::<char>::empty()
    }) + command + " "@ + arguments + "\n"@
}

/// Writes the line that runs a command at the end of a script, as the
/// shells' `run_command` does.
pub fn append_command(cmd_exe: bool, script: &mut String, command: &str, arguments: &str)
    ensures
        final(script)@ == old(script)@ + command_line(cmd_exe, command@, arguments@),
{
    if cmd_exe {
        script.append("@");
    }
    script.append(command);
    script.append(" ");
    script.append(arguments);
    script.append("\n");
    assert(script@ =~= old(script)@ + command_line(cmd_exe, command@, arguments@));
}

/// The activation script as it is written to a file: behind a line that
/// names `/bin/sh` as its interpreter on Unix, and as it is elsewhere.
pub open spec fn with_shebang(activation: Seq<char>, unix: bool) -> Seq<char> {
    if unix {
        "#!/bin/sh\n"@ + activation
    } else {
        activation
    }
}

/// Puts the line that names the interpreter in front of an activation
/// script, on Unix.
pub fn add_shebang(activation: String, unix: bool) -> (r: String)
    ensures
        r@ == with_shebang(activation@, unix),
{
    if unix {
        String::from_str("#!/bin/sh\n").concat(activation.as_str())
    } else {
        activation
    }
}

/// The script that exposes the executable at `executable`: the activation
/// script, then the call of the quoted executable with all arguments. For
/// `cmd.exe` the whole is kept from echoing and from leaking variables into
/// the calling shell.
pub open spec fn script_text(activation: Seq<char>, executable: Seq<char>, shell: ShellKind) -> Seq<
    char,
> {
    let body = activation + command_line(
        shell == ShellKind::CmdExe,
        "\""@ + executable + "\""@,
        catch_all_arg(shell),
    );
    if shell == ShellKind::CmdExe {
        "@echo off\nsetlocal\n"@ + body + "\nendlocal"@
    } else {
        body
    }
}

/// Writes the script that exposes the executable at `executable`.
pub fn executable_script(activation: &str, executable: &str, shell: ShellKind) -> (r: String)
    ensures
        r@ == script_text(activation@, executable@, shell),
{
    let quoted = String::from_str("\"").concat(executable).concat("\"");
    let mut script = String::from_str(activation);
    let cmd_exe = match shell {
        ShellKind::CmdExe => true,
        _ => false,
    };
    append_command(cmd_exe, &mut script, quoted.as_str(), get_catch_all_arg(shell));
    if cmd_exe {
        String::from_str("@echo off\nsetlocal\n").concat(script.as_str()).concat("\nendlocal")
    } else {
        script
    }
}

} // verus!
