use vstd::prelude::*;

verus! {

/// What the manager does when a tab's shell exits.
#[derive(Debug, Clone, Copy, PartialEq, Eq, Structural)]
pub enum ExitPolicy {
    /// End the whole process with the shell's exit code (one-tab use).
    TerminateProcess,
    /// Tell the front-end that the tab's shell exited.
    EmitEvent,
    /// Start a new shell for the tab.
    RestartSession,
}

/// The step to take after the shell of tab `tab` exited with `code`.
#[derive(Debug, Clone, Copy, PartialEq, Eq, Structural)]
pub enum ExitAction {
    /// Exit the process with this status.
    Terminate(i32),
    /// Send an exit event for this tab with the shell's exit code.
    Notify(u64, u32),
    /// Start a new session for this tab.
    Restart(u64),
}

/// Decides, under `policy`, what follows the exit of tab `tab`'s shell with
/// exit code `code`; the process status is the code's bits read as `i32`.
pub fn on_shell_exit(policy: ExitPolicy, tab: u64, code: u32) -> (a: ExitAction)
    ensures
        a == match policy {
            ExitPolicy::TerminateProcess => ExitAction::Terminate(code as i32),
            ExitPolicy::EmitEvent => ExitAction::Notify(tab, code),
            ExitPolicy::RestartSession => ExitAction::Restart(tab),
        },
{
    match policy {
        ExitPolicy::TerminateProcess => ExitAction::Terminate(code as i32),
        ExitPolicy::EmitEvent => ExitAction::Notify(tab, code),
        ExitPolicy::RestartSession => ExitAction::Restart(tab),
    }
}

} // verus!
