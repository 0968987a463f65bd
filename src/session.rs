use crate::error::TabError;
use crate::pty::{
    command_env, command_env_value, command_new, command_program, master_size, open_native_pty,
    opened_size, resize_master, resize_requests, size_queries,
};
use crate::shell::{
    shell_program, shell_program_spec, terminal_type, terminal_type_spec, Platform, TERM_VARIABLE,
};
use crate::table::{TabTable, TabsView};
use portable_pty::{CommandBuilder, PtyPair, PtySize};
use vstd::prelude::*;

verus! {

pub const DEFAULT_ROWS: u16 = 24;

pub const DEFAULT_COLS: u16 = 80;

pub open spec fn size_spec(rows: u16, cols: u16) -> PtySize {
    PtySize { rows, cols, pixel_width: 0, pixel_height: 0 }
}

/// A window of `rows` by `cols` cells, with no pixel dimensions.
pub fn size_of(rows: u16, cols: u16) -> (s: PtySize)
    ensures
        s == size_spec(rows, cols),
{
    PtySize { rows, cols, pixel_width: 0, pixel_height: 0 }
}

/// The size a tab starts with: 24 rows by 80 columns.
pub fn default_size() -> (s: PtySize)
    ensures
        s == size_spec(24, 80),
{
    size_of(DEFAULT_ROWS, DEFAULT_COLS)
}

/// A pair just opened at `size`: nothing asked of it yet.
pub open spec fn fresh_pair(p: PtyPair, size: PtySize) -> bool {
    &&& opened_size(p) == size
    &&& resize_requests(p) == Seq::<PtySize>::empty()
    &&& size_queries(p) == 0
}

/// Allocates a pseudo-terminal at `size`; the operating system's refusal
/// comes back as `PtyAllocationFailed`.
pub fn open_pty(size: PtySize) -> (r: Result<PtyPair, TabError>)
    ensures
        r matches Ok(p) ==> fresh_pair(p, size),
        r matches Err(e) ==> e == TabError::PtyAllocationFailed,
{
    match open_native_pty(size) {
        Ok(pair) => Ok(pair),
        Err(_) => Err(TabError::PtyAllocationFailed),
    }
}

/// Allocates a pseudo-terminal for a new tab, at 24 rows by 80 columns.
pub fn open_default_pty() -> (r: Result<PtyPair, TabError>)
    ensures
        r matches Ok(p) ==> fresh_pair(p, size_spec(24, 80)),
        r matches Err(e) ==> e == TabError::PtyAllocationFailed,
{
    open_pty(default_size())
}

/// The command that starts the platform's interactive shell, with `TERM`
/// set for it.
pub fn shell_command(platform: Platform) -> (cmd: CommandBuilder)
    ensures
        command_program(cmd) == shell_program_spec(platform),
        command_env_value(cmd, TERM_VARIABLE@) == Some(terminal_type_spec(platform)),
{
    let mut cmd = command_new(shell_program(platform));
    command_env(&mut cmd, TERM_VARIABLE, terminal_type(platform));
    cmd
}

/// One tab: its pseudo-terminal, the size last set on it, whether its one
/// shell was started, and the endpoints the caller attached to it (writer,
/// child process, ...).
pub struct Session<E> {
    pair: PtyPair,
    size: PtySize,
    shell_started: bool,
    endpoints: E,
}

impl<E> Session<E> {
    /// Records the outcome of handing `size` to the pseudo-terminal: the new
    /// size when it was accepted, `ResizeFailed` and the old size when not.
    fn record_resize(&mut self, size: PtySize, accepted: bool) -> (r: Result<(), TabError>)
        ensures
            r is Ok <==> accepted,
            r matches Err(e) ==> e == TabError::ResizeFailed,
            final(self).size == (if accepted {
                size
            } else {
                old(self).size
            }),
            final(self).pair == old(self).pair,
            final(self).shell_started == old(self).shell_started,
            final(self).endpoints == old(self).endpoints,
    {
        if accepted {
            self.size = size;
            Ok(())
        } else {
            Err(TabError::ResizeFailed)
        }
    }
}

/// The session manager: owns every tab's pseudo-terminal and tracks the
/// active tab.
pub struct TabManager<E> {
    tabs: TabTable<Session<E>>,
}

impl<E> View for TabManager<E> {
    type V = TabsView;

    closed spec fn view(&self) -> TabsView {
        self.tabs@
    }
}

impl<E> TabManager<E> {
    pub closed spec fn wf(&self) -> bool {
        self.tabs.wf()
    }

    /// The size last set on each open tab, in the order of `self@.ids`.
    pub closed spec fn sizes(&self) -> Seq<PtySize> {
        self.tabs.sessions().map_values(|s: Session<E>| s.size)
    }

    /// The endpoints of each open tab, in the order of `self@.ids`.
    pub closed spec fn endpoints(&self) -> Seq<E> {
        self.tabs.sessions().map_values(|s: Session<E>| s.endpoints)
    }

    /// The pseudo-terminal of each open tab, in the order of `self@.ids`.
    pub closed spec fn pairs(&self) -> Seq<PtyPair> {
        self.tabs.sessions().map_values(|s: Session<E>| s.pair)
    }

    /// Whether each open tab's shell was started, in the order of `self@.ids`.
    pub closed spec fn shells_started(&self) -> Seq<bool> {
        self.tabs.sessions().map_values(|s: Session<E>| s.shell_started)
    }

    /// What a well-formed manager holds: a well-formed tab table, and one
    /// pseudo-terminal, size and endpoint set per open tab.
    pub proof fn lemma_wf(&self)
        requires
            self.wf(),
        ensures
            self@.wf(),
            self.sizes().len() == self@.ids.len(),
            self.endpoints().len() == self@.ids.len(),
            self.pairs().len() == self@.ids.len(),
            self.shells_started().len() == self@.ids.len(),
    {
        self.tabs.lemma_wf();
    }

    pub fn new() -> (m: Self)
        ensures
            m.wf(),
            m@ == TabsView::empty(),
            m.sizes() == Seq::<PtySize>::empty(),
            m.endpoints() == Seq::<E>::empty(),
    {
        let m = TabManager { tabs: TabTable::new() };
        assert(m.sizes() =~= Seq::<PtySize>::empty());
        assert(m.endpoints() =~= Seq::<E>::empty());
        m
    }

    pub fn tab_count(&self) -> (n: usize)
        requires
            self.wf(),
        ensures
            n == self@.ids.len(),
    {
        self.tabs.tab_count()
    }

    pub fn tab_ids(&self) -> (r: Vec<u64>)
        ensures
            r@ == self@.ids,
    {
        self.tabs.tab_ids()
    }

    pub fn next_tab_id(&self) -> (id: u64)
        ensures
            id == self@.next_id,
    {
        self.tabs.next_tab_id()
    }

    pub fn active_tab(&self) -> (a: Option<u64>)
        ensures
            a == self@.active,
    {
        self.tabs.active_tab()
    }

    /// Registers a tab whose pseudo-terminal is `pair`, just opened at
    /// `size`, with no shell started yet, and returns its identifier: the next
    /// one in order, above every identifier issued before.
    pub fn add_tab(&mut self, pair: PtyPair, size: PtySize, endpoints: E) -> (id: u64)
        requires
            old(self).wf(),
            old(self)@.next_id < u64::MAX,
            fresh_pair(pair, size),
        ensures
            final(self).wf(),
            final(self)@.wf(),
            id == old(self)@.next_id,
            !old(self)@.has(id),
            forall|i: int| 0 <= i < old(self)@.ids.len() ==> old(self)@.ids[i] < id,
            final(self)@.has(id),
            final(self)@.active == old(self)@.active,
            final(self).shells_started() == old(self).shells_started().push(false),
            final(self)@ == old(self)@.add(),
            final(self).sizes() == old(self).sizes().push(size),
            final(self).endpoints() == old(self).endpoints().push(endpoints),
            final(self).pairs() == old(self).pairs().push(pair),
    {
        proof {
            self.tabs.lemma_wf();
        }
        let id = self.tabs.add_tab(Session { pair, size, shell_started: false, endpoints });
        proof {
            self.tabs.lemma_wf();
            assert(self@.ids[self@.ids.len() - 1] == id);
        }
        assert(self.shells_started() =~= old(self).shells_started().push(false));
        assert(self.pairs() =~= old(self).pairs().push(pair));
        assert(self.sizes() =~= old(self).sizes().push(size));
        assert(self.endpoints() =~= old(self).endpoints().push(endpoints));
        id
    }

    /// Closes tab `id`, releasing its pseudo-terminal, and hands back its
    /// endpoints for the caller to tear down. Fails with `UnknownTab`,
    /// changing nothing, when no such tab is open.
    pub fn remove_tab(&mut self, id: u64) -> (r: Result<E, TabError>)
        requires
            old(self).wf(),
        ensures
            final(self).wf(),
            final(self)@ == old(self)@.remove(id),
            !final(self)@.has(id),
            final(self)@.next_id == old(self)@.next_id,
            old(self)@.active == Some(id) ==> {
                &&& final(self)@.active is None
                &&& final(self)@.resolve(None) == Err::<u64, TabError>(TabError::NoActiveTab)
            },
            r is Err <==> !old(self)@.has(id),
            r matches Err(e) ==> {
                &&& e == TabError::UnknownTab
                &&& final(self).shells_started() == old(self).shells_started()
                &&& final(self).sizes() == old(self).sizes()
                &&& final(self).endpoints() == old(self).endpoints()
                &&& final(self).pairs() == old(self).pairs()
            },
            r matches Ok(e) ==> {
                let p = old(self)@.position(id);
                &&& e == old(self).endpoints()[p]
                &&& final(self).sizes() == old(self).sizes().remove(p)
                &&& final(self).endpoints() == old(self).endpoints().remove(p)
                &&& final(self).pairs() == old(self).pairs().remove(p)
                &&& final(self).shells_started() == old(self).shells_started().remove(p)
            },
    {
        proof {
            self.tabs.lemma_wf();
            self.tabs.lemma_removed_absent(id);
        }
        match self.tabs.remove_tab(id) {
            Ok(s) => {
                let ghost p = old(self)@.position(id);
                assert(self.sizes() =~= old(self).sizes().remove(p));
                assert(self.endpoints() =~= old(self).endpoints().remove(p));
                assert(self.pairs() =~= old(self).pairs().remove(p));
                assert(self.shells_started() =~= old(self).shells_started().remove(p));
                Ok(s.endpoints)
            },
            Err(e) => Err(e),
        }
    }

    /// Makes tab `id` the target of commands that name none. Fails with
    /// `UnknownTab`, changing nothing, when no such tab is open.
    pub fn set_active(&mut self, id: u64) -> (r: Result<(), TabError>)
        requires
            old(self).wf(),
        ensures
            final(self).wf(),
            final(self)@ == old(self)@.select(id),
            final(self).sizes() == old(self).sizes(),
            final(self).endpoints() == old(self).endpoints(),
            final(self).pairs() == old(self).pairs(),
            final(self).shells_started() == old(self).shells_started(),
            r is Err <==> !old(self)@.has(id),
            r matches Err(e) ==> e == TabError::UnknownTab,
    {
        self.tabs.set_active(id)
    }

    /// The tab a command addresses: `target`, or the active tab.
    pub fn resolve(&self, target: Option<u64>) -> (r: Result<u64, TabError>)
        requires
            self.wf(),
        ensures
            r == self@.resolve(target),
    {
        self.tabs.resolve(target)
    }

    /// The size last set on the addressed tab.
    pub fn tab_size(&self, target: Option<u64>) -> (r: Result<PtySize, TabError>)
        requires
            self.wf(),
        ensures
            self@.resolve(target) matches Err(e) ==> r == Err::<PtySize, TabError>(e),
            self@.resolve(target) matches Ok(id) ==> r == Ok::<PtySize, TabError>(
                self.sizes()[self@.position(id)],
            ),
    {
        match self.tabs.session(target) {
            Ok(s) => Ok(s.size),
            Err(e) => Err(e),
        }
    }

    /// The pseudo-terminal of the addressed tab, to spawn a process on.
    pub fn tab_pair(&self, target: Option<u64>) -> (r: Result<&PtyPair, TabError>)
        requires
            self.wf(),
        ensures
            self@.resolve(target) matches Err(e) ==> r == Err::<&PtyPair, TabError>(e),
            self@.resolve(target) matches Ok(id) ==> r == Ok::<&PtyPair, TabError>(
                &self.pairs()[self@.position(id)],
            ),
    {
        match self.tabs.session(target) {
            Ok(s) => Ok(&s.pair),
            Err(e) => Err(e),
        }
    }

    /// Asks the addressed tab's pseudo-terminal, and no other, for the size
    /// the kernel holds; a failure to read it back comes as `ResizeFailed`.
    pub fn reported_size(&mut self, target: Option<u64>) -> (r: Result<PtySize, TabError>)
        requires
            old(self).wf(),
        ensures
            final(self).wf(),
            final(self)@ == old(self)@,
            final(self).sizes() == old(self).sizes(),
            final(self).endpoints() == old(self).endpoints(),
            final(self).shells_started() == old(self).shells_started(),
            old(self)@.resolve(target) matches Err(e) ==> r == Err::<PtySize, TabError>(e)
                && final(self).pairs() == old(self).pairs(),
            old(self)@.resolve(target) matches Ok(id) ==> {
                let p = old(self)@.position(id);
                let (before, after) = (old(self).pairs()[p], final(self).pairs()[p]);
                &&& final(self).pairs() == old(self).pairs().update(p, after)
                &&& size_queries(after) == size_queries(before) + 1
                &&& resize_requests(after) == resize_requests(before)
                &&& opened_size(after) == opened_size(before)
                &&& (r matches Err(e) ==> e == TabError::ResizeFailed)
            },
    {
        let r = match self.tabs.session_mut(target) {
            Ok(s) => match master_size(&mut s.pair) {
                Ok(size) => Ok(size),
                Err(_) => Err(TabError::ResizeFailed),
            },
            Err(e) => Err(e),
        };
        proof {
            self.lemma_unchanged_but_pair(*old(self), target);
        }
        r
    }

    /// Resizes the addressed tab to `rows` by `cols`, pixel dimensions zero:
    /// that size, and no other, is handed to that tab's pseudo-terminal and
    /// to no other. On success the tab's recorded size is the new one; when
    /// the pseudo-terminal refuses, the result is `ResizeFailed` and the
    /// recorded size stays.
    pub fn resize(&mut self, target: Option<u64>, rows: u16, cols: u16) -> (r: Result<(), TabError>)
        requires
            old(self).wf(),
        ensures
            final(self).wf(),
            final(self)@ == old(self)@,
            final(self).endpoints() == old(self).endpoints(),
            final(self).shells_started() == old(self).shells_started(),
            old(self)@.resolve(target) matches Err(e) ==> r == Err::<(), TabError>(e)
                && final(self).sizes() == old(self).sizes() && final(self).pairs() == old(
                self,
            ).pairs(),
            old(self)@.resolve(target) matches Ok(id) ==> {
                let p = old(self)@.position(id);
                let (before, after) = (old(self).pairs()[p], final(self).pairs()[p]);
                &&& final(self).pairs() == old(self).pairs().update(p, after)
                &&& resize_requests(after) == resize_requests(before).push(size_spec(rows, cols))
                &&& size_queries(after) == size_queries(before)
                &&& opened_size(after) == opened_size(before)
                &&& match r {
                    Ok(()) => final(self).sizes() == old(self).sizes().update(
                        p,
                        size_spec(rows, cols),
                    ),
                    Err(e) => e == TabError::ResizeFailed && final(self).sizes() == old(
                        self,
                    ).sizes(),
                }
            },
    {
        let size = size_of(rows, cols);
        let r = match self.tabs.session_mut(target) {
            Err(e) => Err(e),
            Ok(s) => {
                let accepted = resize_master(&mut s.pair, size).is_ok();
                s.record_resize(size, accepted)
            },
        };
        proof {
            if let Ok(id) = old(self)@.resolve(target) {
                let p = old(self)@.position(id);
                if r is Ok {
                    assert(self.sizes() =~= old(self).sizes().update(p, size));
                } else {
                    assert(self.sizes() =~= old(self).sizes());
                }
                assert(self.endpoints() =~= old(self).endpoints());
                assert(self.shells_started() =~= old(self).shells_started());
                assert(self.pairs() =~= old(self).pairs().update(p, self.pairs()[p]));
            } else {
                assert(self.sizes() =~= old(self).sizes());
                assert(self.endpoints() =~= old(self).endpoints());
                assert(self.shells_started() =~= old(self).shells_started());
                assert(self.pairs() =~= old(self).pairs());
            }
        }
        r
    }

    /// Reserves the addressed tab's pseudo-terminal for its shell and returns
    /// the tab. The slave side serves one child only, so a tab whose shell
    /// was already started fails with `SpawnFailed`, changing nothing.
    pub fn claim_shell(&mut self, target: Option<u64>) -> (r: Result<u64, TabError>)
        requires
            old(self).wf(),
        ensures
            final(self).wf(),
            final(self)@ == old(self)@,
            final(self).sizes() == old(self).sizes(),
            final(self).endpoints() == old(self).endpoints(),
            final(self).pairs() == old(self).pairs(),
            old(self)@.resolve(target) matches Err(e) ==> r == Err::<u64, TabError>(e)
                && final(self).shells_started() == old(self).shells_started(),
            old(self)@.resolve(target) matches Ok(id) ==> {
                let p = old(self)@.position(id);
                if old(self).shells_started()[p] {
                    &&& r == Err::<u64, TabError>(TabError::SpawnFailed)
                    &&& final(self).shells_started() == old(self).shells_started()
                } else {
                    &&& r == Ok::<u64, TabError>(id)
                    &&& final(self).shells_started() == old(self).shells_started().update(p, true)
                }
            },
    {
        let r = match self.tabs.session_mut(target) {
            Ok(s) => if s.shell_started {
                Err(TabError::SpawnFailed)
            } else {
                s.shell_started = true;
                Ok(0)
            },
            Err(e) => Err(e),
        };
        proof {
            if let Ok(id) = old(self)@.resolve(target) {
                let p = old(self)@.position(id);
                assert(self.sizes() =~= old(self).sizes());
                assert(self.endpoints() =~= old(self).endpoints());
                assert(self.pairs() =~= old(self).pairs());
                if r is Ok {
                    assert(self.shells_started() =~= old(self).shells_started().update(p, true));
                } else {
                    assert(self.shells_started() =~= old(self).shells_started());
                }
            } else {
                assert(self.sizes() =~= old(self).sizes());
                assert(self.endpoints() =~= old(self).endpoints());
                assert(self.pairs() =~= old(self).pairs());
                assert(self.shells_started() =~= old(self).shells_started());
            }
        }
        match r {
            Ok(_) => self.resolve(target),
            Err(e) => Err(e),
        }
    }

    /// The endpoints of the addressed tab, for the caller to write through.
    pub fn endpoints_mut(&mut self, target: Option<u64>) -> (r: Result<&mut E, TabError>)
        requires
            old(self).wf(),
        ensures
            final(self).wf(),
            final(self)@ == old(self)@,
            final(self).sizes() == old(self).sizes(),
            final(self).pairs() == old(self).pairs(),
            final(self).shells_started() == old(self).shells_started(),
            old(self)@.resolve(target) matches Err(e) ==> r == Err::<&mut E, TabError>(e)
                && final(self).endpoints() == old(self).endpoints(),
            old(self)@.resolve(target) matches Ok(id) ==> {
                let p = old(self)@.position(id);
                &&& r is Ok
                &&& *r->Ok_0 == old(self).endpoints()[p]
                &&& final(self).endpoints() == old(self).endpoints().update(p, *final(r->Ok_0))
            },
    {
        match self.tabs.session_mut(target) {
            Ok(s) => Ok(&mut s.endpoints),
            Err(e) => Err(e),
        }
    }

    proof fn lemma_unchanged_but_pair(&self, before: Self, target: Option<u64>)
        requires
            before.wf(),
            self@ == before@,
            before@.resolve(target) matches Err(_) ==> self.tabs.sessions() == before.tabs.sessions(),
            before@.resolve(target) matches Ok(id) ==> {
                let p = before@.position(id);
                &&& 0 <= p < before.tabs.sessions().len()
                &&& self.tabs.sessions() == before.tabs.sessions().update(p, self.tabs.sessions()[p])
                &&& self.tabs.sessions()[p].size == before.tabs.sessions()[p].size
                &&& self.tabs.sessions()[p].endpoints == before.tabs.sessions()[p].endpoints
                &&& self.tabs.sessions()[p].shell_started == before.tabs.sessions()[
                    p
                ].shell_started
            },
        ensures
            self.sizes() == before.sizes(),
            self.endpoints() == before.endpoints(),
            self.shells_started() == before.shells_started(),
            before@.resolve(target) matches Err(_) ==> self.pairs() == before.pairs(),
            before@.resolve(target) matches Ok(id) ==> self.pairs() == before.pairs().update(
                before@.position(id),
                self.pairs()[before@.position(id)],
            ),
    {
        assert(self.sizes() =~= before.sizes());
        assert(self.endpoints() =~= before.endpoints());
        assert(self.shells_started() =~= before.shells_started());
        if let Ok(id) = before@.resolve(target) {
            let p = before@.position(id);
            assert(self.pairs() =~= before.pairs().update(p, self.pairs()[p]));
        } else {
            assert(self.pairs() =~= before.pairs());
        }
    }
}

} // verus!
