use vstd::prelude::*;

verus! {

/// The host family, which decides the interactive shell a tab runs.
#[derive(Debug, Clone, Copy, PartialEq, Eq, Structural)]
pub enum Platform {
    Windows,
    Unix,
}

pub open spec fn shell_program_spec(p: Platform) -> Seq<char> {
    match p {
        Platform::Windows => "powershell.exe"@,
        Platform::Unix => "bash"@,
    }
}

pub open spec fn terminal_type_spec(p: Platform) -> Seq<char> {
    match p {
        Platform::Windows => "cygwin"@,
        Platform::Unix => "xterm-256color"@,
    }
}

/// The environment variable that tells the shell what terminal it drives.
pub const TERM_VARIABLE: &'static str = "TERM";

/// The shell spawned in every tab: PowerShell on Windows, bash elsewhere.
pub fn shell_program(p: Platform) -> (r: &'static str)
    ensures
        r@ == shell_program_spec(p),
{
    match p {
        Platform::Windows => "powershell.exe",
        Platform::Unix => "bash",
    }
}

/// The value of `TERM` for the spawned shell.
pub fn terminal_type(p: Platform) -> (r: &'static str)
    ensures
        r@ == terminal_type_spec(p),
{
    match p {
        Platform::Windows => "cygwin",
        Platform::Unix => "xterm-256color",
    }
}

} // verus!
