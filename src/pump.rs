use vstd::prelude::*;

verus! {

/// How long the pump waits after a read that brought no data.
pub const POLL_INTERVAL_MS: u64 = 1;

/// What the last attempt to read a tab's output brought.
pub enum PumpEvent {
    /// The read returned these bytes; an empty chunk means no data yet.
    Read(Vec<u8>),
    /// The pseudo-terminal signalled end of stream.
    EndOfStream,
    /// The read failed for good.
    ReadFailed,
    /// The tab was removed and the pump was asked to stop.
    StopRequested,
}

/// What the pump does next.
pub enum PumpAction {
    /// Push this chunk to the event sink, tagged with the tab identifier.
    Emit(u64, Vec<u8>),
    /// Wait this many milliseconds, then read again.
    Wait(u64),
    /// Stop reading: no further events for this tab.
    Stop,
}

/// The abstract state of a pump: its tab, the output buffered so far, and
/// whether it has stopped.
pub struct PumpView {
    pub tab: u64,
    pub output: Seq<u8>,
    pub stopped: bool,
}

pub open spec fn ends_pump(e: PumpEvent) -> bool {
    e is EndOfStream || e is ReadFailed || e is StopRequested
}

impl PumpView {
    /// The state after one event.
    pub open spec fn next(self, e: PumpEvent) -> PumpView {
        if self.stopped {
            self
        } else if ends_pump(e) {
            PumpView { stopped: true, ..self }
        } else {
            PumpView { output: self.output + e->Read_0@, ..self }
        }
    }

    /// The state after a sequence of events.
    pub open spec fn run(self, events: Seq<PumpEvent>) -> PumpView
        decreases events.len(),
    {
        if events.len() == 0 {
            self
        } else {
            self.next(events[0]).run(events.drop_first())
        }
    }

    /// The chunks emitted over a sequence of events, in order.
    pub open spec fn emitted(self, events: Seq<PumpEvent>) -> Seq<Seq<u8>>
        decreases events.len(),
    {
        if events.len() == 0 {
            Seq::empty()
        } else {
            let e = events[0];
            let head = if !self.stopped && e is Read && e->Read_0@.len() > 0 {
                seq![e->Read_0@]
            } else {
                Seq::empty()
            };
            head + self.next(e).emitted(events.drop_first())
        }
    }
}

pub open spec fn concat(chunks: Seq<Seq<u8>>) -> Seq<u8>
    decreases chunks.len(),
{
    if chunks.len() == 0 {
        Seq::empty()
    } else {
        chunks[0] + concat(chunks.drop_first())
    }
}

/// Drains one tab's output: each read that brings bytes is buffered and
/// emitted under the tab's identifier.
pub struct ReaderPump {
    tab: u64,
    output: Vec<u8>,
    stopped: bool,
}

impl View for ReaderPump {
    type V = PumpView;

    closed spec fn view(&self) -> PumpView {
        PumpView { tab: self.tab, output: self.output@, stopped: self.stopped }
    }
}

impl ReaderPump {
    pub fn new(tab: u64) -> (p: Self)
        ensures
            p@ == (PumpView { tab, output: Seq::empty(), stopped: false }),
    {
        ReaderPump { tab, output: Vec::new(), stopped: false }
    }

    pub fn tab(&self) -> (t: u64)
        ensures
            t == self@.tab,
    {
        self.tab
    }

    pub fn is_stopped(&self) -> (b: bool)
        ensures
            b == self@.stopped,
    {
        self.stopped
    }

    /// All bytes emitted so far, in order.
    pub fn output(&self) -> (o: &Vec<u8>)
        ensures
            o@ == self@.output,
    {
        &self.output
    }

    /// Decides what to do with one event: a non-empty chunk is appended to
    /// the buffer and emitted under this pump's tab, an empty one means wait
    /// and read again, and end of stream, a failed read or a stop request
    /// stop the pump for good.
    pub fn step(&mut self, event: PumpEvent) -> (a: PumpAction)
        requires
            event is Read ==> old(self)@.output.len() + event->Read_0@.len() <= usize::MAX,
        ensures
            final(self)@ == old(self)@.next(event),
            old(self)@.stopped ==> a is Stop,
            !old(self)@.stopped ==> match event {
                PumpEvent::Read(d) => if d@.len() > 0 {
                    a matches PumpAction::Emit(t, c) && t == old(self)@.tab && c@ == d@
                } else {
                    a == PumpAction::Wait(POLL_INTERVAL_MS)
                },
                _ => a is Stop,
            },
    {
        if self.stopped {
            return PumpAction::Stop;
        }
        match event {
            PumpEvent::Read(data) => {
                if data.len() == 0 {
                    PumpAction::Wait(POLL_INTERVAL_MS)
                } else {
                    let mut i: usize = 0;
                    while i < data.len()
                        invariant
                            i <= data@.len(),
                            self.output@ == old(self)@.output + data@.subrange(0, i as int),
                            self.tab == old(self)@.tab,
                            self.stopped == old(self)@.stopped,
                            old(self)@.output.len() + data@.len() <= usize::MAX,
                        decreases data@.len() - i,
                    {
                        self.output.push(data[i]);
                        i += 1;
                        assert(self.output@ =~= old(self)@.output + data@.subrange(0, i as int));
                    }
                    assert(data@.subrange(0, i as int) =~= data@);
                    PumpAction::Emit(self.tab, data)
                }
            },
            _ => {
                self.stopped = true;
                PumpAction::Stop
            },
        }
    }
}

/// Output is delivered in order and only under the pump's own tab: after any
/// sequence of events the buffer is what it held before followed by the
/// emitted chunks, in the order they were read, and the pump still serves
/// the same tab.
pub proof fn lemma_pump_delivers_in_order(v: PumpView, events: Seq<PumpEvent>)
    ensures
        v.run(events).output == v.output + concat(v.emitted(events)),
        v.run(events).tab == v.tab,
        v.stopped ==> v.emitted(events).len() == 0,
    decreases events.len(),
{
    if events.len() > 0 {
        let e = events[0];
        let w = v.next(e);
        lemma_pump_delivers_in_order(w, events.drop_first());
        let tail = w.emitted(events.drop_first());
        let head = if !v.stopped && e is Read && e->Read_0@.len() > 0 {
            seq![e->Read_0@]
        } else {
            Seq::<Seq<u8>>::empty()
        };
        assert(v.emitted(events) == head + tail);
        if head.len() == 1 {
            assert((head + tail).drop_first() =~= tail);
            assert(concat(head + tail) == e->Read_0@ + concat(tail));
            assert(w.output == v.output + e->Read_0@);
            assert(v.output + e->Read_0@ + concat(tail) =~= v.output + concat(head + tail));
        } else {
            assert(head + tail =~= tail);
            if !v.stopped && e is Read {
                assert(e->Read_0@ =~= Seq::<u8>::empty());
                assert(w.output =~= v.output);
            }
        }
    }
}

} // verus!
