use crate::error::TabError;
use vstd::prelude::*;

verus! {

/// The abstract state of a tab table: the identifiers of the open tabs in
/// the order they were opened, the identifier the next tab will get, and
/// the active tab, if any.
pub struct TabsView {
    pub ids: Seq<u64>,
    pub next_id: nat,
    pub active: Option<u64>,
}

/// A command that changes the tab table.
pub enum TabOp {
    Add,
    Remove(u64),
    Select(u64),
}

impl TabsView {
    pub open spec fn empty() -> TabsView {
        TabsView { ids: Seq::empty(), next_id: 0, active: None }
    }

    /// Identifiers are strictly increasing, all below the next one to be
    /// issued, and the active tab, if any, is open.
    pub open spec fn wf(self) -> bool {
        &&& forall|i: int, j: int| 0 <= i < j < self.ids.len() ==> self.ids[i] < self.ids[j]
        &&& forall|i: int| 0 <= i < self.ids.len() ==> self.ids[i] < self.next_id
        &&& self.next_id <= u64::MAX + 1
        &&& (self.active matches Some(a) ==> self.ids.contains(a))
    }

    pub open spec fn has(self, id: u64) -> bool {
        self.ids.contains(id)
    }

    /// The position of an open tab in the table.
    pub open spec fn position(self, id: u64) -> int {
        choose|i: int| 0 <= i < self.ids.len() && self.ids[i] == id
    }

    /// A new tab gets the next identifier and goes last; the active tab stays.
    pub open spec fn add(self) -> TabsView {
        TabsView {
            ids: self.ids.push(self.next_id as u64),
            next_id: self.next_id + 1,
            active: self.active,
        }
    }

    /// Removing an open tab takes it out and clears the active tab if it was
    /// that one; removing any other identifier changes nothing.
    pub open spec fn remove(self, id: u64) -> TabsView {
        if self.has(id) {
            TabsView {
                ids: self.ids.remove(self.position(id)),
                next_id: self.next_id,
                active: if self.active == Some(id) { None } else { self.active },
            }
        } else {
            self
        }
    }

    /// Selecting an open tab makes it the active one; any other identifier
    /// changes nothing.
    pub open spec fn select(self, id: u64) -> TabsView {
        if self.has(id) {
            TabsView { active: Some(id), ..self }
        } else {
            self
        }
    }

    /// The tab that a command addresses: the given one, or else the active one.
    pub open spec fn resolve(self, target: Option<u64>) -> Result<u64, TabError> {
        match target {
            Some(id) => if self.has(id) {
                Ok(id)
            } else {
                Err(TabError::UnknownTab)
            },
            None => match self.active {
                Some(a) => Ok(a),
                None => Err(TabError::NoActiveTab),
            },
        }
    }

    pub open spec fn apply(self, op: TabOp) -> TabsView {
        match op {
            TabOp::Add => self.add(),
            TabOp::Remove(id) => self.remove(id),
            TabOp::Select(id) => self.select(id),
        }
    }

    /// The state after a sequence of commands.
    pub open spec fn run(self, ops: Seq<TabOp>) -> TabsView
        decreases ops.len(),
    {
        if ops.len() == 0 {
            self
        } else {
            self.apply(ops[0]).run(ops.drop_first())
        }
    }

    /// The identifiers issued by the `Add` commands of a sequence, in order.
    pub open spec fn issued(self, ops: Seq<TabOp>) -> Seq<u64>
        decreases ops.len(),
    {
        if ops.len() == 0 {
            Seq::empty()
        } else {
            let head = if ops[0] is Add {
                seq![self.next_id as u64]
            } else {
                Seq::empty()
            };
            head + self.apply(ops[0]).issued(ops.drop_first())
        }
    }
}

pub open spec fn no_select(ops: Seq<TabOp>) -> bool {
    forall|i: int| 0 <= i < ops.len() ==> !(ops[i] is Select)
}

proof fn lemma_position(v: TabsView, id: u64)
    requires
        v.wf(),
        v.has(id),
    ensures
        0 <= v.position(id) < v.ids.len(),
        v.ids[v.position(id)] == id,
        forall|i: int| 0 <= i < v.ids.len() && v.ids[i] == id ==> i == v.position(id),
{
    let k = choose|i: int| 0 <= i < v.ids.len() && v.ids[i] == id;
    assert(0 <= k < v.ids.len() && v.ids[k] == id);
    assert forall|i: int| 0 <= i < v.ids.len() && v.ids[i] == id implies i == v.position(id) by {
        let p = v.position(id);
        if i < p {
            assert(v.ids[i] < v.ids[p]);
        } else if p < i {
            assert(v.ids[p] < v.ids[i]);
        }
    }
}

proof fn lemma_apply_wf(v: TabsView, op: TabOp)
    requires
        v.wf(),
        op is Add ==> v.next_id <= u64::MAX,
    ensures
        v.apply(op).wf(),
        v.apply(op).next_id >= v.next_id,
        forall|id: u64| v.apply(op).has(id) ==> v.has(id) || (op is Add && id == v.next_id),
        !(op is Select) ==> (v.apply(op).active is Some ==> v.active == v.apply(op).active),
{
    match op {
        TabOp::Add => {
            let w = v.add();
            assert forall|id: u64| w.has(id) implies v.has(id) || id == v.next_id by {
                let i = choose|i: int| 0 <= i < w.ids.len() && w.ids[i] == id;
                if i < v.ids.len() {
                    assert(v.ids[i] == id);
                }
            }
            if let Some(a) = v.active {
                let i = choose|i: int| 0 <= i < v.ids.len() && v.ids[i] == a;
                assert(w.ids[i] == a);
            }
        },
        TabOp::Remove(id) => {
            if v.has(id) {
                lemma_position(v, id);
                let p = v.position(id);
                let w = v.remove(id);
                assert forall|i: int| 0 <= i < w.ids.len() implies w.ids[i] == v.ids[if i < p { i } else { i + 1 }] by {}
                assert forall|x: u64| w.has(x) implies v.has(x) by {
                    let i = choose|i: int| 0 <= i < w.ids.len() && w.ids[i] == x;
                    assert(v.ids[if i < p { i } else { i + 1 }] == x);
                }
                if let Some(a) = w.active {
                    let i = choose|i: int| 0 <= i < v.ids.len() && v.ids[i] == a;
                    assert(i != p);
                    assert(w.ids[if i < p { i } else { i - 1 }] == a);
                }
            }
        },
        TabOp::Select(id) => {},
    }
}

/// Tab identifiers are never reused: over any sequence of commands, the
/// identifiers issued are strictly increasing and each is greater than every
/// identifier open before the sequence; the table stays well formed.
pub proof fn lemma_issued_ids_unique_increasing(v: TabsView, ops: Seq<TabOp>)
    requires
        v.wf(),
        v.next_id + ops.len() <= u64::MAX + 1,
    ensures
        v.run(ops).wf(),
        v.run(ops).next_id >= v.next_id,
        forall|i: int, j: int|
            0 <= i < j < v.issued(ops).len() ==> v.issued(ops)[i] < v.issued(ops)[j],
        forall|i: int| 0 <= i < v.issued(ops).len() ==> v.issued(ops)[i] >= v.next_id,
        forall|i: int| 0 <= i < v.issued(ops).len() ==> v.issued(ops)[i] < v.run(ops).next_id,
        forall|i: int, k: int|
            0 <= i < v.issued(ops).len() && 0 <= k < v.ids.len() ==> v.ids[k] < v.issued(ops)[i],
    decreases ops.len(),
{
    if ops.len() > 0 {
        let w = v.apply(ops[0]);
        lemma_apply_wf(v, ops[0]);
        lemma_issued_ids_unique_increasing(w, ops.drop_first());
        let tail = w.issued(ops.drop_first());
        let head = if ops[0] is Add {
            seq![v.next_id as u64]
        } else {
            Seq::<u64>::empty()
        };
        assert(v.issued(ops) == head + tail);
        assert(v.run(ops) == w.run(ops.drop_first()));
        if ops[0] is Add {
            assert(w.next_id == v.next_id + 1);
        }
        let all = head + tail;
        assert forall|i: int| 0 <= i < all.len() implies all[i] >= v.next_id by {
            if i >= head.len() {
                assert(all[i] == tail[i - head.len()]);
            }
        }
        assert forall|i: int| 0 <= i < all.len() implies all[i] < v.run(ops).next_id by {
            if i >= head.len() {
                assert(all[i] == tail[i - head.len()]);
            } else {
                assert(all[i] == v.next_id);
            }
        }
        assert forall|i: int, j: int| 0 <= i < j < all.len() implies all[i] < all[j] by {
            assert(all[j] == tail[j - head.len()]);
            if i >= head.len() {
                assert(all[i] == tail[i - head.len()]);
            } else {
                assert(all[i] == v.next_id);
            }
        }
        assert forall|i: int, k: int|
            0 <= i < all.len() && 0 <= k < v.ids.len() implies v.ids[k] < all[i] by {
            assert(v.ids[k] < v.next_id);
        }
    }
}

/// A tab that is not open and whose identifier was issued before never
/// reappears, whatever commands follow.
pub proof fn lemma_closed_tab_stays_unknown(v: TabsView, id: u64, ops: Seq<TabOp>)
    requires
        v.wf(),
        !v.has(id),
        id < v.next_id,
        v.next_id + ops.len() <= u64::MAX + 1,
    ensures
        !v.run(ops).has(id),
        v.run(ops).resolve(Some(id)) == Err::<u64, TabError>(TabError::UnknownTab),
    decreases ops.len(),
{
    if ops.len() > 0 {
        lemma_apply_wf(v, ops[0]);
        lemma_closed_tab_stays_unknown(v.apply(ops[0]), id, ops.drop_first());
    }
}

/// Removing an identifier that names no open tab leaves the table as it
/// was, the number of tabs included.
pub proof fn lemma_remove_unknown_unchanged(v: TabsView, id: u64)
    requires
        !v.has(id),
    ensures
        v.remove(id) == v,
        v.remove(id).ids.len() == v.ids.len(),
        v.remove(id).resolve(Some(id)) == Err::<u64, TabError>(TabError::UnknownTab),
{
}

/// Once a tab is removed, every later command addressed to it fails with
/// `UnknownTab`.
pub proof fn lemma_removed_tab_unknown(v: TabsView, id: u64, ops: Seq<TabOp>)
    requires
        v.wf(),
        v.next_id + ops.len() <= u64::MAX + 1,
    ensures
        v.remove(id).run(ops).resolve(Some(id)) == Err::<u64, TabError>(TabError::UnknownTab)
            <== (v.has(id) || id < v.next_id),
{
    if v.has(id) || id < v.next_id {
        lemma_apply_wf(v, TabOp::Remove(id));
        let w = v.remove(id);
        if v.has(id) {
            lemma_position(v, id);
            let p = v.position(id);
            assert forall|i: int| 0 <= i < w.ids.len() implies w.ids[i] != id by {
                let k = if i < p { i } else { i + 1 };
                assert(w.ids[i] == v.ids[k]);
                assert(k != p);
            }
            assert(!w.has(id));
            assert(v.ids[p] < v.next_id);
        }
        lemma_closed_tab_stays_unknown(w, id, ops);
    }
}

/// Removing the active tab clears the active selection, and commands without
/// an explicit tab fail with `NoActiveTab` until a tab is selected again.
pub proof fn lemma_removing_active_clears(v: TabsView, id: u64, ops: Seq<TabOp>)
    requires
        v.wf(),
        v.active == Some(id),
        no_select(ops),
        v.next_id + ops.len() <= u64::MAX + 1,
    ensures
        v.remove(id).active is None,
        v.remove(id).run(ops).active is None,
        v.remove(id).run(ops).resolve(None) == Err::<u64, TabError>(TabError::NoActiveTab),
{
    lemma_apply_wf(v, TabOp::Remove(id));
    lemma_no_active_without_select(v.remove(id), ops);
}

proof fn lemma_no_active_without_select(v: TabsView, ops: Seq<TabOp>)
    requires
        v.wf(),
        v.active is None,
        no_select(ops),
        v.next_id + ops.len() <= u64::MAX + 1,
    ensures
        v.run(ops).active is None,
    decreases ops.len(),
{
    if ops.len() > 0 {
        lemma_apply_wf(v, ops[0]);
        assert(!(ops[0] is Select));
        assert(no_select(ops.drop_first())) by {
            assert forall|i: int| 0 <= i < ops.drop_first().len() implies !(
            ops.drop_first()[i] is Select) by {
                assert(ops.drop_first()[i] == ops[i + 1]);
            }
        }
        lemma_no_active_without_select(v.apply(ops[0]), ops.drop_first());
    }
}

/// The open tabs, each with its session, keyed by identifiers that are
/// issued in increasing order and never reused, and the active tab.
pub struct TabTable<S> {
    ids: Vec<u64>,
    sessions: Vec<S>,
    next_id: u64,
    active: Option<u64>,
}

impl<S> View for TabTable<S> {
    type V = TabsView;

    closed spec fn view(&self) -> TabsView {
        TabsView { ids: self.ids@, next_id: self.next_id as nat, active: self.active }
    }
}

impl<S> TabTable<S> {
    /// The sessions of the open tabs, in the order of `self@.ids`.
    pub closed spec fn sessions(&self) -> Seq<S> {
        self.sessions@
    }

    pub closed spec fn wf(&self) -> bool {
        &&& self@.wf()
        &&& self.ids@.len() == self.sessions@.len()
    }

    /// What a well-formed table holds: a well-formed abstract state and one
    /// session per open tab.
    pub proof fn lemma_wf(&self)
        requires
            self.wf(),
        ensures
            self@.wf(),
            self.sessions().len() == self@.ids.len(),
    {
    }

    /// After removing `id`, no open tab has that identifier.
    pub proof fn lemma_removed_absent(&self, id: u64)
        requires
            self.wf(),
        ensures
            !self@.remove(id).has(id),
    {
        if self@.has(id) {
            lemma_position(self@, id);
            let p = self@.position(id);
            let w = self@.remove(id);
            assert forall|i: int| 0 <= i < w.ids.len() implies w.ids[i] != id by {
                let k = if i < p { i } else { i + 1 };
                assert(w.ids[i] == self@.ids[k]);
            }
        }
    }

    /// The session of an open tab.
    pub open spec fn session_of(&self, id: u64) -> S {
        self.sessions()[self@.position(id)]
    }

    pub fn new() -> (t: Self)
        ensures
            t.wf(),
            t@ == TabsView::empty(),
            t.sessions() == Seq::<S>::empty(),
    {
        TabTable { ids: Vec::new(), sessions: Vec::new(), next_id: 0, active: None }
    }

    pub fn tab_count(&self) -> (n: usize)
        requires
            self.wf(),
        ensures
            n == self@.ids.len(),
    {
        self.ids.len()
    }

    /// The identifier the next tab will get.
    pub fn next_tab_id(&self) -> (id: u64)
        ensures
            id == self@.next_id,
    {
        self.next_id
    }

    pub fn active_tab(&self) -> (a: Option<u64>)
        ensures
            a == self@.active,
    {
        self.active
    }

    /// The identifiers of the open tabs, oldest first.
    pub fn tab_ids(&self) -> (r: Vec<u64>)
        ensures
            r@ == self@.ids,
    {
        let mut r: Vec<u64> = Vec::new();
        let mut i: usize = 0;
        while i < self.ids.len()
            invariant
                i <= self.ids@.len(),
                r@ == self.ids@.subrange(0, i as int),
            decreases self.ids@.len() - i,
        {
            r.push(self.ids[i]);
            i += 1;
            assert(r@ =~= self.ids@.subrange(0, i as int));
        }
        assert(r@ =~= self.ids@);
        r
    }

    fn find(&self, id: u64) -> (r: Option<usize>)
        requires
            self.wf(),
        ensures
            r is None <==> !self@.has(id),
            r matches Some(i) ==> i == self@.position(id) && i < self.ids@.len(),
    {
        let mut i: usize = 0;
        while i < self.ids.len()
            invariant
                self.wf(),
                i <= self.ids@.len(),
                forall|k: int| 0 <= k < i ==> self.ids@[k] != id,
            decreases self.ids@.len() - i,
        {
            if self.ids[i] == id {
                proof {
                    lemma_position(self@, id);
                }
                return Some(i);
            }
            i += 1;
        }
        None
    }

    pub fn contains(&self, id: u64) -> (b: bool)
        requires
            self.wf(),
        ensures
            b == self@.has(id),
    {
        self.find(id).is_some()
    }

    /// Opens a tab holding `session` under the next identifier, which it
    /// returns.
    pub fn add_tab(&mut self, session: S) -> (id: u64)
        requires
            old(self).wf(),
            old(self)@.next_id < u64::MAX,
        ensures
            final(self).wf(),
            id == old(self)@.next_id,
            final(self)@ == old(self)@.add(),
            final(self).sessions() == old(self).sessions().push(session),
    {
        let id = self.next_id;
        self.ids.push(id);
        self.sessions.push(session);
        self.next_id = id + 1;
        proof {
            lemma_apply_wf(old(self)@, TabOp::Add);
        }
        id
    }

    /// Closes tab `id` and hands back its session; fails with `UnknownTab`,
    /// leaving the table as it was, when no such tab is open.
    pub fn remove_tab(&mut self, id: u64) -> (r: Result<S, TabError>)
        requires
            old(self).wf(),
        ensures
            final(self).wf(),
            final(self)@ == old(self)@.remove(id),
            !final(self)@.has(id),
            r is Err <==> !old(self)@.has(id),
            r matches Err(e) ==> e == TabError::UnknownTab && final(self).sessions() == old(
                self,
            ).sessions(),
            r matches Ok(s) ==> {
                let p = old(self)@.position(id);
                &&& 0 <= p < old(self).sessions().len()
                &&& s == old(self).session_of(id)
                &&& final(self).sessions() == old(self).sessions().remove(p)
            },
    {
        proof {
            self.lemma_removed_absent(id);
        }
        match self.find(id) {
            None => Err(TabError::UnknownTab),
            Some(i) => {
                self.ids.remove(i);
                let s = self.sessions.remove(i);
                if self.active == Some(id) {
                    self.active = None;
                }
                proof {
                    lemma_apply_wf(old(self)@, TabOp::Remove(id));
                    lemma_position(old(self)@, id);
                }
                Ok(s)
            },
        }
    }

    /// Makes tab `id` the active one; fails with `UnknownTab`, leaving the
    /// table as it was, when no such tab is open.
    pub fn set_active(&mut self, id: u64) -> (r: Result<(), TabError>)
        requires
            old(self).wf(),
        ensures
            final(self).wf(),
            final(self)@ == old(self)@.select(id),
            final(self).sessions() == old(self).sessions(),
            r is Err <==> !old(self)@.has(id),
            r matches Err(e) ==> e == TabError::UnknownTab,
    {
        if self.contains(id) {
            self.active = Some(id);
            Ok(())
        } else {
            Err(TabError::UnknownTab)
        }
    }

    /// The tab a command addresses: `target`, or the active tab when there
    /// is none.
    pub fn resolve(&self, target: Option<u64>) -> (r: Result<u64, TabError>)
        requires
            self.wf(),
        ensures
            r == self@.resolve(target),
    {
        match target {
            Some(id) => if self.contains(id) {
                Ok(id)
            } else {
                Err(TabError::UnknownTab)
            },
            None => match self.active {
                Some(a) => Ok(a),
                None => Err(TabError::NoActiveTab),
            },
        }
    }

    /// The session of the tab a command addresses.
    pub fn session(&self, target: Option<u64>) -> (r: Result<&S, TabError>)
        requires
            self.wf(),
        ensures
            self@.resolve(target) matches Err(e) ==> r == Err::<&S, TabError>(e),
            self@.resolve(target) matches Ok(id) ==> r is Ok && *r->Ok_0 == self.session_of(id)
                && 0 <= self@.position(id) < self.sessions().len(),
    {
        let id = match self.resolve(target) {
            Ok(id) => id,
            Err(e) => return Err(e),
        };
        proof {
            lemma_position(self@, id);
        }
        let i = self.find(id).unwrap();
        Ok(&self.sessions[i])
    }

    /// The session of the tab a command addresses, to act on.
    pub fn session_mut(&mut self, target: Option<u64>) -> (r: Result<&mut S, TabError>)
        requires
            old(self).wf(),
        ensures
            final(self).wf(),
            final(self)@ == old(self)@,
            old(self)@.resolve(target) matches Err(e) ==> r == Err::<&mut S, TabError>(e)
                && final(self).sessions() == old(self).sessions(),
            old(self)@.resolve(target) matches Ok(id) ==> r is Ok && *r->Ok_0 == old(
                self,
            ).session_of(id) && 0 <= old(self)@.position(id) < old(self).sessions().len() && final(self).sessions() == old(self).sessions().update(
                old(self)@.position(id),
                *final(r->Ok_0),
            ),
    {
        let id = match self.resolve(target) {
            Ok(id) => id,
            Err(e) => return Err(e),
        };
        proof {
            lemma_position(self@, id);
        }
        let i = self.find(id).unwrap();
        Ok(&mut self.sessions[i])
    }
}

} // verus!
