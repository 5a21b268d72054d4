//! The per-connection echo loop, as a state machine: read a chunk, write
//! it back in full, read again, until a zero-length read (clean end of
//! input) or an I/O failure closes the connection. Ghost fields record
//! every byte that crossed the handler, so the echo guarantee — bytes out
//! equal bytes in, in order, whatever the chunking — is stated and proved
//! over the whole history, not one cycle at a time.

use vstd::prelude::*;

verus! {

/// Capacity in bytes of the fixed read buffer each connection handler
/// uses. A message longer than this is relayed transparently over several
/// read/write cycles.
pub const BUF_CAPACITY: usize = 512;

/// Where a connection handler stands in its read/echo cycle.
#[derive(Clone, Copy, Debug, PartialEq, Eq, Structural)]
pub enum Phase {
    /// Ready to issue the next blocking read.
    AwaitingRead,
    /// A chunk has been read and its echo has not yet completed.
    Writing,
    /// Terminal: the connection is released; no transition leaves it.
    Closed,
}

/// What the connection reported back for the last operation performed on it.
#[derive(Debug)]
pub enum Event {
    /// A read returned these bytes: at least one, at most `BUF_CAPACITY`.
    DataRead(Vec<u8>),
    /// A read returned zero bytes: the peer closed its write side.
    EndOfInput,
    /// A read failed with an I/O error.
    ReadFailed,
    /// The pending chunk was written back in full.
    WriteCompleted,
    /// A write failed with an I/O error.
    WriteFailed,
}

/// The next blocking operation the handler asks its driver to perform.
#[derive(Debug)]
pub enum Action {
    /// Read up to `BUF_CAPACITY` bytes from the connection.
    Read,
    /// Write these bytes back to the connection, in full, before reading again.
    Write(Vec<u8>),
    /// Release the connection; the handler is done.
    Close,
}

/// The concatenation, in order, of a sequence of byte chunks.
pub open spec fn concat_of(chunks: Seq<Seq<u8>>) -> Seq<u8>
    decreases chunks.len(),
{
    if chunks.len() == 0 {
        Seq::empty()
    } else {
        concat_of(chunks.drop_last()) + chunks.last()
    }
}

/// One per accepted connection: the state of its echo loop, with a ghost
/// record of the bytes that have crossed it. A handler owns its state
/// exclusively; nothing here is shared with the listener or with any
/// other connection's handler.
pub struct Handler {
    /// Where the loop stands.
    pub phase: Phase,
    /// True once the handler closed on a clean end of input rather than an
    /// I/O failure.
    pub clean: bool,
    /// Every byte read from the peer so far, in order.
    pub received: Ghost<Seq<u8>>,
    /// Every byte whose echo has completed, in order.
    pub echoed: Ghost<Seq<u8>>,
    /// The chunk read but not yet written back; empty outside `Writing`.
    pub pending: Ghost<Seq<u8>>,
    /// The chunks read so far, in the order the reads returned them;
    /// `received` is their concatenation.
    pub chunks: Ghost<Seq<Seq<u8>>>,
}

impl Handler {
    /// The handler's invariant; it holds in every reachable state.
    pub open spec fn wf(self) -> bool {
        &&& self.received@ == concat_of(self.chunks@)
        &&& match self.phase {
            Phase::AwaitingRead => {
                &&& self.echoed@ == self.received@
                &&& self.pending@ == Seq::<u8>::empty()
            },
            Phase::Writing => {
                &&& 1 <= self.pending@.len() <= BUF_CAPACITY
                &&& self.echoed@ + self.pending@ == self.received@
            },
            Phase::Closed => {
                &&& self.echoed@.is_prefix_of(self.received@)
                &&& (self.clean ==> self.echoed@ == self.received@)
            },
        }
    }

    /// Which reports the connection can hand the handler in its current
    /// phase: read outcomes while awaiting a read, write outcomes while a
    /// write is pending, nothing once closed.
    pub open spec fn accepts(self, e: Event) -> bool {
        match e {
            Event::DataRead(d) => {
                &&& self.phase == Phase::AwaitingRead
                &&& 1 <= d@.len() <= BUF_CAPACITY
            },
            Event::EndOfInput => self.phase == Phase::AwaitingRead,
            Event::ReadFailed => self.phase == Phase::AwaitingRead,
            Event::WriteCompleted => self.phase == Phase::Writing,
            Event::WriteFailed => self.phase == Phase::Writing,
        }
    }

    /// A fresh handler for one newly accepted connection: awaiting its
    /// first read, nothing received, nothing echoed.
    pub fn new() -> (h: Handler)
        ensures
            h.wf(),
            h.phase == Phase::AwaitingRead,
            !h.clean,
            h.received@ == Seq::<u8>::empty(),
            h.echoed@ == Seq::<u8>::empty(),
            h.chunks@ == Seq::<Seq<u8>>::empty(),
    {
        Handler {
            phase: Phase::AwaitingRead,
            clean: false,
            received: Ghost(Seq::empty()),
            echoed: Ghost(Seq::empty()),
            pending: Ghost(Seq::empty()),
            chunks: Ghost(Seq::empty()),
        }
    }

    /// Advance the echo loop by one report from the connection and return
    /// the next blocking operation to perform on it.
    pub fn on_event(&mut self, e: Event) -> (a: Action)
        requires
            old(self).wf(),
            old(self).accepts(e),
        ensures
            final(self).wf(),
            transition(*old(self), e, *final(self), a),
    {
        match e {
            Event::DataRead(d) => {
                self.received = Ghost(self.received@ + d@);
                self.pending = Ghost(d@);
                self.chunks = Ghost(self.chunks@.push(d@));
                self.phase = Phase::Writing;
                proof {
                    assert(self.chunks@.drop_last() =~= old(self).chunks@);
                    assert(self.received@ == concat_of(self.chunks@));
                }
                Action::Write(d)
            },
            Event::EndOfInput => {
                self.phase = Phase::Closed;
                self.clean = true;
                proof {
                    lemma_prefix_of_extension(self.echoed@, Seq::empty(), self.received@);
                }
                Action::Close
            },
            Event::ReadFailed => {
                self.phase = Phase::Closed;
                self.clean = false;
                proof {
                    lemma_prefix_of_extension(self.echoed@, Seq::empty(), self.received@);
                }
                Action::Close
            },
            Event::WriteCompleted => {
                self.echoed = Ghost(self.echoed@ + self.pending@);
                self.pending = Ghost(Seq::empty());
                self.phase = Phase::AwaitingRead;
                Action::Read
            },
            Event::WriteFailed => {
                self.phase = Phase::Closed;
                self.clean = false;
                proof {
                    lemma_prefix_of_extension(self.echoed@, self.pending@, self.received@);
                }
                Action::Close
            },
        }
    }

    /// True once the handler has closed and its connection is released.
    pub fn is_done(&self) -> (r: bool)
        ensures
            r == (self.phase == Phase::Closed),
    {
        self.phase == Phase::Closed
    }
}

/// The handler's full transition relation: from state `pre`, on report
/// `e`, to state `post`, asking the driver to perform `a` next. Data
/// cycles back to the peer; a zero-length read closes cleanly; an I/O
/// failure on either side closes at once; `Closed` is never left.
pub open spec fn transition(pre: Handler, e: Event, post: Handler, a: Action) -> bool {
    match e {
        Event::DataRead(d) => {
            &&& post.phase == Phase::Writing
            &&& post.clean == pre.clean
            &&& post.received@ == pre.received@ + d@
            &&& post.echoed@ == pre.echoed@
            &&& post.pending@ == d@
            &&& post.chunks@ == pre.chunks@.push(d@)
            &&& a matches Action::Write(w) && w@ == d@
        },
        Event::EndOfInput => {
            &&& post.phase == Phase::Closed
            &&& post.clean
            &&& unchanged_bytes(pre, post)
            &&& a matches Action::Close
        },
        Event::ReadFailed => {
            &&& post.phase == Phase::Closed
            &&& !post.clean
            &&& unchanged_bytes(pre, post)
            &&& a matches Action::Close
        },
        Event::WriteCompleted => {
            &&& post.phase == Phase::AwaitingRead
            &&& post.clean == pre.clean
            &&& post.received@ == pre.received@
            &&& post.echoed@ == pre.echoed@ + pre.pending@
            &&& post.pending@ == Seq::<u8>::empty()
            &&& post.chunks@ == pre.chunks@
            &&& a matches Action::Read
        },
        Event::WriteFailed => {
            &&& post.phase == Phase::Closed
            &&& !post.clean
            &&& unchanged_bytes(pre, post)
            &&& a matches Action::Close
        },
    }
}

/// No byte moved: the ghost record of `post` is that of `pre`.
pub open spec fn unchanged_bytes(pre: Handler, post: Handler) -> bool {
    &&& post.received@ == pre.received@
    &&& post.echoed@ == pre.echoed@
    &&& post.pending@ == pre.pending@
    &&& post.chunks@ == pre.chunks@
}

/// A sequence is a prefix of itself extended by anything.
proof fn lemma_prefix_of_extension(s: Seq<u8>, rest: Seq<u8>, whole: Seq<u8>)
    requires
        whole == s + rest,
    ensures
        s.is_prefix_of(whole),
{
    assert(whole.subrange(0, s.len() as int) =~= s);
}

/// Echo correctness: however the peer's byte stream was split into read
/// chunks, whenever the handler is ready for its next read — and when it
/// has closed on a clean end of input — the bytes echoed back,
/// concatenated in order, are exactly the bytes received, which are in
/// turn the concatenation of those chunks.
pub proof fn lemma_echo_exact(h: Handler)
    requires
        h.wf(),
        h.phase == Phase::AwaitingRead || (h.phase == Phase::Closed && h.clean),
    ensures
        h.echoed@ == h.received@,
        h.echoed@ == concat_of(h.chunks@),
{
}

/// Isolation: a handler echoes only bytes it received on its own
/// connection. In every reachable state, what it has echoed is a prefix,
/// in order, of what it has received; no byte from elsewhere can appear.
pub proof fn lemma_echoes_only_own_bytes(h: Handler)
    requires
        h.wf(),
    ensures
        h.echoed@.is_prefix_of(h.received@),
{
    match h.phase {
        Phase::AwaitingRead => {
            lemma_prefix_of_extension(h.echoed@, Seq::empty(), h.received@);
        },
        Phase::Writing => {
            lemma_prefix_of_extension(h.echoed@, h.pending@, h.received@);
        },
        Phase::Closed => {},
    }
}

/// Clean shutdown: a zero-length read — the peer closed its write side —
/// closes the handler within that one cycle. The machine reaches its
/// terminal phase, asks for the connection's release, and every received
/// byte has been echoed; nothing further is written.
pub proof fn lemma_end_of_input_closes(pre: Handler, post: Handler, a: Action)
    requires
        pre.wf(),
        pre.phase == Phase::AwaitingRead,
        transition(pre, Event::EndOfInput, post, a),
    ensures
        post.phase == Phase::Closed,
        post.clean,
        a matches Action::Close,
        post.echoed@ == post.received@,
{
}

/// Fault isolation: an I/O failure, on the read or on the write side,
/// ends this handler alone. The machine reaches its terminal phase and
/// asks for its own connection's release; its record of bytes stands
/// still, and — a handler holding no state shared with the listener or
/// with any other handler — nothing else is touched.
pub proof fn lemma_io_failure_closes_handler(pre: Handler, e: Event, post: Handler, a: Action)
    requires
        pre.wf(),
        pre.accepts(e),
        e matches Event::ReadFailed || e matches Event::WriteFailed,
        transition(pre, e, post, a),
    ensures
        post.phase == Phase::Closed,
        !post.clean,
        a matches Action::Close,
        unchanged_bytes(pre, post),
        post.echoed@.is_prefix_of(post.received@),
{
    lemma_echoes_only_own_bytes(pre);
}

/// Every step preserves the invariant: any state reached from a
/// well-formed state by a report the phase admits is well-formed, so the
/// invariant holds in every state reachable from `Handler::new`.
pub proof fn lemma_transition_preserves_wf(pre: Handler, e: Event, post: Handler, a: Action)
    requires
        pre.wf(),
        pre.accepts(e),
        transition(pre, e, post, a),
    ensures
        post.wf(),
{
    match e {
        Event::DataRead(d) => {
            assert(post.chunks@.drop_last() =~= pre.chunks@);
            assert(post.received@ == concat_of(post.chunks@));
        },
        Event::EndOfInput => {
            lemma_prefix_of_extension(post.echoed@, Seq::empty(), post.received@);
        },
        Event::ReadFailed => {
            lemma_prefix_of_extension(post.echoed@, Seq::empty(), post.received@);
        },
        Event::WriteCompleted => {},
        Event::WriteFailed => {
            lemma_prefix_of_extension(post.echoed@, post.pending@, post.received@);
        },
    }
}

/// A run of the machine: each step's report is admitted by the phase it
/// meets, and each step is a transition from the state the previous one
/// reached.
pub open spec fn run_ok(h: Handler, steps: Seq<(Event, Handler, Action)>) -> bool
    decreases steps.len(),
{
    if steps.len() == 0 {
        true
    } else {
        let step = steps.first();
        &&& h.accepts(step.0)
        &&& transition(h, step.0, step.1, step.2)
        &&& run_ok(step.1, steps.drop_first())
    }
}

/// The state a run ends in.
pub open spec fn run_end(h: Handler, steps: Seq<(Event, Handler, Action)>) -> Handler {
    if steps.len() == 0 {
        h
    } else {
        steps.last().1
    }
}

/// The invariant holds along every run: a well-formed handler driven by
/// any admissible sequence of reports ends well-formed.
pub proof fn lemma_run_preserves_wf(h: Handler, steps: Seq<(Event, Handler, Action)>)
    requires
        h.wf(),
        run_ok(h, steps),
    ensures
        run_end(h, steps).wf(),
    decreases steps.len(),
{
    if steps.len() > 0 {
        let step = steps.first();
        lemma_transition_preserves_wf(h, step.0, step.1, step.2);
        lemma_run_preserves_wf(step.1, steps.drop_first());
        if steps.len() > 1 {
            assert(steps.drop_first().last() == steps.last());
        }
    }
}

/// Echo correctness over a whole session: from a well-formed handler — a
/// fresh one in particular — any admissible run whose end is ready for
/// the next read, or closed on a clean end of input, has echoed back
/// exactly the bytes it received, in order: the concatenation of the
/// chunks the reads returned, however the peer's stream was split into
/// them.
pub proof fn lemma_run_echo_exact(h: Handler, steps: Seq<(Event, Handler, Action)>)
    requires
        h.wf(),
        run_ok(h, steps),
        run_end(h, steps).phase == Phase::AwaitingRead
            || (run_end(h, steps).phase == Phase::Closed && run_end(h, steps).clean),
    ensures
        run_end(h, steps).echoed@ == run_end(h, steps).received@,
        run_end(h, steps).echoed@ == concat_of(run_end(h, steps).chunks@),
{
    lemma_run_preserves_wf(h, steps);
    lemma_echo_exact(run_end(h, steps));
}

} // verus!
