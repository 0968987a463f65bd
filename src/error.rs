use vstd::prelude::*;

verus! {

/// What a tab command can fail with.
#[derive(Debug, Clone, Copy, PartialEq, Eq, Structural)]
pub enum TabError {
    /// The operating system could not create a pseudo-terminal.
    PtyAllocationFailed,
    /// The shell process could not be started.
    SpawnFailed,
    /// The tab identifier names no tab of the table.
    UnknownTab,
    /// No tab was given and no tab is active.
    NoActiveTab,
    /// Writing to the tab's pseudo-terminal failed.
    WriteFailed,
    /// Resizing the tab's pseudo-terminal failed.
    ResizeFailed,
}

} // verus!
