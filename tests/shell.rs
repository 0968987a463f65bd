use pty_tabs::exit::{on_shell_exit, ExitAction, ExitPolicy};
use pty_tabs::shell::{shell_program, terminal_type, Platform, TERM_VARIABLE};

#[test]
fn unix_runs_bash_with_xterm() {
    assert_eq!(shell_program(Platform::Unix), "bash");
    assert_eq!(terminal_type(Platform::Unix), "xterm-256color");
    assert_eq!(TERM_VARIABLE, "TERM");
}

#[test]
fn windows_runs_powershell_with_cygwin() {
    assert_eq!(shell_program(Platform::Windows), "powershell.exe");
    assert_eq!(terminal_type(Platform::Windows), "cygwin");
}

#[test]
fn exit_policy_decides_the_follow_up() {
    assert_eq!(on_shell_exit(ExitPolicy::TerminateProcess, 3, 2), ExitAction::Terminate(2));
    assert_eq!(on_shell_exit(ExitPolicy::TerminateProcess, 3, u32::MAX), ExitAction::Terminate(-1));
    assert_eq!(on_shell_exit(ExitPolicy::EmitEvent, 3, 2), ExitAction::Notify(3, 2));
    assert_eq!(on_shell_exit(ExitPolicy::RestartSession, 3, 2), ExitAction::Restart(3));
}
