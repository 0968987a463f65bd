use portable_pty::{CommandBuilder, PtyPair, PtySize};
use vstd::prelude::*;

verus! {

#[verifier::external_type_specification]
pub struct ExPtySize(PtySize);

#[verifier::external_type_specification]
#[verifier::external_body]
pub struct ExPtyPair(PtyPair);

#[verifier::external_type_specification]
#[verifier::external_body]
pub struct ExCommandBuilder(CommandBuilder);

#[verifier::external_type_specification]
#[verifier::external_body]
pub struct ExAnyhowError(anyhow::Error);

/// The program a command runs.
pub uninterp spec fn command_program(c: CommandBuilder) -> Seq<char>;

/// The value a command sets for an environment variable, if it sets one.
pub uninterp spec fn command_env_value(c: CommandBuilder, key: Seq<char>) -> Option<Seq<char>>;

/// The size a pseudo-terminal pair was opened at.
pub uninterp spec fn opened_size(p: PtyPair) -> PtySize;

/// The sizes handed to a pair's master for resizing, oldest first.
pub uninterp spec fn resize_requests(p: PtyPair) -> Seq<PtySize>;

/// How many times a pair's master was asked for its size.
pub uninterp spec fn size_queries(p: PtyPair) -> nat;

/// Relies on portable_pty::native_pty_system and PtySystem::openpty: the
/// host's implementation opens a new pair at `size`, or the operating system
/// refuses.
#[verifier::external_body]
pub(crate) fn open_native_pty(size: PtySize) -> (r: Result<PtyPair, anyhow::Error>)
    ensures
        r matches Ok(p) ==> {
            &&& opened_size(p) == size
            &&& resize_requests(p) == Seq::<PtySize>::empty()
            &&& size_queries(p) == 0
        },
{
    portable_pty::native_pty_system().openpty(size)
}

/// Relies on PtyPair's master, MasterPty::resize: hands `size` to the kernel
/// for this pair, which tells the child; the kernel may refuse.
#[verifier::external_body]
pub(crate) fn resize_master(pair: &mut PtyPair, size: PtySize) -> (r: Result<(), anyhow::Error>)
    ensures
        resize_requests(*final(pair)) == resize_requests(*old(pair)).push(size),
        opened_size(*final(pair)) == opened_size(*old(pair)),
        size_queries(*final(pair)) == size_queries(*old(pair)),
{
    pair.master.resize(size)
}

/// Relies on PtyPair's master, MasterPty::get_size: asks the kernel for the
/// size it holds for this pair.
#[verifier::external_body]
pub(crate) fn master_size(pair: &mut PtyPair) -> (r: Result<PtySize, anyhow::Error>)
    ensures
        size_queries(*final(pair)) == size_queries(*old(pair)) + 1,
        resize_requests(*final(pair)) == resize_requests(*old(pair)),
        opened_size(*final(pair)) == opened_size(*old(pair)),
{
    pair.master.get_size()
}

/// Relies on CommandBuilder::new: a command whose program (argv[0]) is
/// `program`.
#[verifier::external_body]
pub(crate) fn command_new(program: &str) -> (c: CommandBuilder)
    ensures
        command_program(c) == program@,
{
    CommandBuilder::new(program)
}

/// Relies on CommandBuilder::env: sets `key` to `value`, leaving the program.
#[verifier::external_body]
pub(crate) fn command_env(cmd: &mut CommandBuilder, key: &str, value: &str)
    ensures
        command_program(*final(cmd)) == command_program(*old(cmd)),
        command_env_value(*final(cmd), key@) == Some(value@),
{
    cmd.env(key, value)
}

} // verus!
