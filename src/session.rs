//! One remote thumbnail session as a state machine. The caller performs each
//! action that the machine asks for (accept, read, transform, write, flush)
//! and hands back what came of it as an event; the machine decides the rest.
use vstd::prelude::*;
use vstd::utf8::decode_utf8;
use crate::length::{announced, announced_length, Announced, LengthError, LENGTH_CHUNK};
use crate::text::trimmed;

verus! {

/// Which operation a session failed in.
#[derive(PartialEq, Eq, Structural, Clone, Copy, Debug)]
pub enum ErrorKind {
    Bind,
    Accept,
    Read,
    ShortRead,
    Encoding,
    Parse,
    Transform,
    Write,
}

/// A failure that ends a session: the operation, and the cause in words
/// (for `Parse`, the offending text).
pub struct SessionError {
    pub kind: ErrorKind,
    pub message: String,
}

/// Where a session stands.
#[derive(PartialEq, Eq, Structural, Clone, Copy, Debug)]
pub enum Phase {
    Binding,
    AcceptingLength,
    ReadingLength,
    AcceptingPayload,
    ReadingPayload,
    Transforming,
    Writing,
    Flushing,
    Finished,
    Failed,
}

/// What came of the action last asked for.
pub enum Event {
    /// The bind, accept, write or flush succeeded.
    Done,
    /// A read returned these bytes; none means the connection reached its end.
    Data(Vec<u8>),
    /// The transformation returned these bytes.
    Produced(Vec<u8>),
    /// The operation failed, for this cause.
    Failed(String),
}

/// What the caller is asked to do next.
pub enum Action {
    /// Accept the first connection.
    AcceptLength,
    /// Read once, at most this many bytes, from the first connection.
    ReadLength(usize),
    /// Accept the second connection.
    AcceptPayload,
    /// Read at most this many bytes from the second connection.
    ReadPayload(usize),
    /// Call the transformation once, on these bytes.
    Transform(Vec<u8>),
    /// Write all these bytes to the second connection.
    WriteAll(Vec<u8>),
    /// Flush the second connection.
    Flush,
    /// The response is flushed: the session is over.
    Finish,
    /// The session failed: write nothing more and close the connections.
    Abort(SessionError),
}

/// A session as a value of the model: its phase, the announced length, and
/// the payload bytes read so far.
pub ghost struct SessionModel {
    pub phase: Phase,
    pub length: nat,
    pub received: Seq<u8>,
}

/// An action as a value of the model.
pub ghost enum Step {
    AcceptLength,
    ReadLength(nat),
    AcceptPayload,
    ReadPayload(nat),
    Transform(Seq<u8>),
    WriteAll(Seq<u8>),
    Flush,
    Finish,
    Abort(ErrorKind, Seq<char>),
}

impl View for Action {
    type V = Step;

    open spec fn view(&self) -> Step {
        match self {
            Action::AcceptLength => Step::AcceptLength,
            Action::ReadLength(n) => Step::ReadLength(*n as nat),
            Action::AcceptPayload => Step::AcceptPayload,
            Action::ReadPayload(n) => Step::ReadPayload(*n as nat),
            Action::Transform(b) => Step::Transform(b@),
            Action::WriteAll(b) => Step::WriteAll(b@),
            Action::Flush => Step::Flush,
            Action::Finish => Step::Finish,
            Action::Abort(e) => Step::Abort(e.kind, e.message@),
        }
    }
}

/// The session's state.
pub struct Session {
    phase: Phase,
    length: usize,
    buffer: Vec<u8>,
}

impl View for Session {
    type V = SessionModel;

    closed spec fn view(&self) -> SessionModel {
        SessionModel { phase: self.phase, length: self.length as nat, received: self.buffer@ }
    }
}

/// A model state is consistent: no more bytes held than were announced, and
/// none outside the payload phase but in a failed session.
pub open spec fn model_wf(m: SessionModel) -> bool {
    &&& m.received.len() <= m.length
    &&& m.length <= usize::MAX
    &&& m.phase != Phase::ReadingPayload && m.phase != Phase::Failed ==> m.received.len() == 0
}

/// The session is over: no event is expected any more.
pub open spec fn is_over(p: Phase) -> bool {
    p == Phase::Finished || p == Phase::Failed
}

/// `e` answers the action that a session in state `m` asked for.
pub open spec fn fits(m: SessionModel, e: Event) -> bool {
    match e {
        Event::Failed(_) => !is_over(m.phase),
        Event::Done => m.phase == Phase::Binding || m.phase == Phase::AcceptingLength
            || m.phase == Phase::AcceptingPayload || m.phase == Phase::Writing
            || m.phase == Phase::Flushing,
        Event::Data(b) => m.phase == Phase::ReadingLength || (m.phase == Phase::ReadingPayload
            && m.received.len() + b@.len() <= m.length),
        Event::Produced(_) => m.phase == Phase::Transforming,
    }
}

/// The operation that a session in phase `p` waits on.
pub open spec fn failure_kind(p: Phase) -> ErrorKind {
    match p {
        Phase::Binding => ErrorKind::Bind,
        Phase::AcceptingLength | Phase::AcceptingPayload => ErrorKind::Accept,
        Phase::Transforming => ErrorKind::Transform,
        Phase::Writing | Phase::Flushing => ErrorKind::Write,
        _ => ErrorKind::Read,
    }
}

pub open spec fn with_phase(m: SessionModel, p: Phase) -> SessionModel {
    SessionModel { phase: p, ..m }
}

/// The failed session, and the abort that reports `kind` with `message`.
pub open spec fn abort(m: SessionModel, kind: ErrorKind, message: Seq<char>) -> (SessionModel, Step) {
    (with_phase(m, Phase::Failed), Step::Abort(kind, message))
}

/// The next state and the next action of a session in state `m` on event `e`.
pub open spec fn next(m: SessionModel, e: Event) -> (SessionModel, Step) {
    match e {
        Event::Failed(cause) => abort(m, failure_kind(m.phase), cause@),
        Event::Done => if m.phase == Phase::Binding {
            (with_phase(m, Phase::AcceptingLength), Step::AcceptLength)
        } else if m.phase == Phase::AcceptingLength {
            (with_phase(m, Phase::ReadingLength), Step::ReadLength(LENGTH_CHUNK as nat))
        } else if m.phase == Phase::AcceptingPayload {
            if m.length == 0 {
                (with_phase(m, Phase::Transforming), Step::Transform(Seq::empty()))
            } else {
                (with_phase(m, Phase::ReadingPayload), Step::ReadPayload(m.length))
            }
        } else if m.phase == Phase::Writing {
            (with_phase(m, Phase::Flushing), Step::Flush)
        } else {
            (with_phase(m, Phase::Finished), Step::Finish)
        },
        Event::Data(b) => if m.phase == Phase::ReadingLength {
            match announced(b@) {
                Announced::Size(n) => (
                    SessionModel { phase: Phase::AcceptingPayload, length: n as nat, received: Seq::empty() },
                    Step::AcceptPayload,
                ),
                Announced::NotText => abort(m, ErrorKind::Encoding, Seq::empty()),
                Announced::NotNumber(t) => abort(m, ErrorKind::Parse, t),
            }
        } else if b@.len() == 0 {
            abort(m, ErrorKind::ShortRead, Seq::empty())
        } else if m.received.len() + b@.len() == m.length {
            (
                SessionModel { phase: Phase::Transforming, received: Seq::empty(), ..m },
                Step::Transform(m.received + b@),
            )
        } else {
            (
                SessionModel { received: m.received + b@, ..m },
                Step::ReadPayload((m.length - m.received.len() - b@.len()) as nat),
            )
        },
        Event::Produced(out) => (with_phase(m, Phase::Writing), Step::WriteAll(out@)),
    }
}

/// The bytes that an event carries from a read.
pub open spec fn read_bytes(e: Event) -> Seq<u8> {
    match e {
        Event::Data(b) => b@,
        _ => Seq::empty(),
    }
}

/// Once a session is over, no event is taken any more: nothing is accepted,
/// read, transformed or written after it.
pub proof fn lemma_over_takes_nothing(m: SessionModel, e: Event)
    requires
        is_over(m.phase),
    ensures
        !fits(m, e),
{
}

/// An announcement that is no length ends the session with an encoding or a
/// parse error, and the second connection is never accepted.
pub proof fn lemma_refused_length_ends_session(m: SessionModel, bytes: Vec<u8>)
    requires
        m.phase == Phase::ReadingLength,
        !(announced(bytes@) is Size),
    ensures
        next(m, Event::Data(bytes)).0.phase == Phase::Failed,
        next(m, Event::Data(bytes)).1 == Step::Abort(ErrorKind::Encoding, Seq::empty())
            || next(m, Event::Data(bytes)).1 == Step::Abort(ErrorKind::Parse, trimmed(decode_utf8(bytes@))),
        forall|e: Event| !fits(#[trigger] next(m, Event::Data(bytes)).0, e),
{
}

/// The transformation is asked for only once exactly the announced number of
/// bytes is in, and on those bytes; until then each read asks for no more
/// than what is missing.
pub proof fn lemma_transform_gets_exact_payload(m: SessionModel, e: Event)
    requires
        model_wf(m),
        fits(m, e),
    ensures
        next(m, e).1 is Transform ==> next(m, e).1->Transform_0.len() == m.length
            && next(m, e).1->Transform_0 == m.received + read_bytes(e),
        next(m, e).1 is ReadPayload ==> next(m, e).1->ReadPayload_0 > 0
            && next(m, e).1->ReadPayload_0 + next(m, e).0.received.len() == m.length,
        model_wf(next(m, e).0),
{
    if m.phase == Phase::AcceptingPayload {
        assert(m.received + read_bytes(e) =~= Seq::<u8>::empty());
    }
}

/// A read that ends the second connection before the payload is complete
/// fails the session with a short read: no transformation and no write follow.
pub proof fn lemma_short_read_aborts(m: SessionModel, end: Vec<u8>)
    requires
        model_wf(m),
        m.phase == Phase::ReadingPayload,
        m.received.len() < m.length,
        end@.len() == 0,
    ensures
        next(m, Event::Data(end)).1 == Step::Abort(ErrorKind::ShortRead, Seq::empty()),
        forall|e: Event| !fits(#[trigger] next(m, Event::Data(end)).0, e),
{
}

/// The states and actions of a session that takes the events `events` in turn.
pub open spec fn run(m: SessionModel, events: Seq<Event>) -> (SessionModel, Seq<Step>)
    decreases events.len(),
{
    if events.len() == 0 {
        (m, Seq::empty())
    } else {
        let (m1, s1) = next(m, events[0]);
        let (m2, rest) = run(m1, events.drop_first());
        (m2, seq![s1] + rest)
    }
}

/// The bytes of a sequence of reads, one after the other.
pub open spec fn concat_reads(chunks: Seq<Vec<u8>>) -> Seq<u8>
    decreases chunks.len(),
{
    if chunks.len() == 0 {
        Seq::empty()
    } else {
        chunks[0]@ + concat_reads(chunks.drop_first())
    }
}

/// The events of a sequence of reads.
pub open spec fn reads(chunks: Seq<Vec<u8>>) -> Seq<Event> {
    chunks.map_values(|c: Vec<u8>| Event::Data(c))
}

/// However the payload is split over reads, each read is answered by a
/// request for the rest, and the last one, which completes the announced
/// length, by a transformation of exactly the bytes read.
pub proof fn lemma_payload_read_exactly(m: SessionModel, chunks: Seq<Vec<u8>>)
    requires
        model_wf(m),
        m.phase == Phase::ReadingPayload,
        chunks.len() > 0,
        forall|i: int| 0 <= i < chunks.len() ==> (#[trigger] chunks[i])@.len() > 0,
        m.received.len() + concat_reads(chunks).len() == m.length,
    ensures
        run(m, reads(chunks)).1.len() == chunks.len(),
        run(m, reads(chunks)).1.last() == Step::Transform(m.received + concat_reads(chunks)),
        forall|i: int| 0 <= i < chunks.len() - 1 ==> #[trigger] run(m, reads(chunks)).1[i] is ReadPayload,
        run(m, reads(chunks)).0.phase == Phase::Transforming,
    decreases chunks.len(),
{
    let rest = chunks.drop_first();
    let events = reads(chunks);
    assert(events.drop_first() =~= reads(rest));
    assert(events[0] == Event::Data(chunks[0]));
    let (m1, s1) = next(m, events[0]);
    assert(run(m, events) == (run(m1, reads(rest)).0, seq![s1] + run(m1, reads(rest)).1));
    if chunks.len() == 1 {
        assert(concat_reads(rest) =~= Seq::<u8>::empty());
        assert(chunks[0]@ + Seq::<u8>::empty() =~= chunks[0]@);
        assert(run(m1, reads(rest)).1 =~= Seq::<Step>::empty());
        assert(seq![s1] + Seq::<Step>::empty() =~= seq![s1]);
    } else {
        assert(rest[0] == chunks[1]);
        assert(concat_reads(rest).len() > 0);
        assert forall|i: int| 0 <= i < rest.len() implies (#[trigger] rest[i])@.len() > 0 by {
            assert(rest[i] == chunks[i + 1]);
        }
        lemma_payload_read_exactly(m1, rest);
        assert(m1.received + concat_reads(rest) =~= m.received + concat_reads(chunks));
        let steps = run(m, reads(chunks)).1;
        let later = run(m1, reads(rest)).1;
        assert(steps.last() == later.last());
        assert forall|i: int| 0 <= i < chunks.len() - 1 implies #[trigger] steps[i] is ReadPayload by {
            if i > 0 {
                assert(steps[i] == later[i - 1]);
            }
        }
    }
}

/// With a transformation that hands its input back, the bytes written on the
/// second connection are the bytes that were read from it, however they
/// were split over reads.
pub proof fn lemma_identity_round_trip(m: SessionModel, chunks: Seq<Vec<u8>>, out: Vec<u8>)
    requires
        model_wf(m),
        m.phase == Phase::ReadingPayload,
        m.received.len() == 0,
        chunks.len() > 0,
        forall|i: int| 0 <= i < chunks.len() ==> (#[trigger] chunks[i])@.len() > 0,
        concat_reads(chunks).len() == m.length,
        out@ == run(m, reads(chunks)).1.last()->Transform_0,
    ensures
        next(run(m, reads(chunks)).0, Event::Produced(out)).1 == Step::WriteAll(concat_reads(chunks)),
{
    lemma_payload_read_exactly(m, chunks);
    assert(m.received + concat_reads(chunks) =~= concat_reads(chunks));
}

/// An empty payload goes to the transformation at once, without a read; its
/// failure ends the session with nothing written.
pub proof fn lemma_empty_payload(m: SessionModel, cause: String)
    requires
        m.phase == Phase::AcceptingPayload,
        m.length == 0,
    ensures
        next(m, Event::Done).1 == Step::Transform(Seq::empty()),
        next(next(m, Event::Done).0, Event::Failed(cause)).1 == Step::Abort(ErrorKind::Transform, cause@),
        forall|e: Event| !fits(#[trigger] next(next(m, Event::Done).0, Event::Failed(cause)).0, e),
{
}

/// A failed transformation ends the session without a write or a flush.
pub proof fn lemma_transform_failure_writes_nothing(m: SessionModel, cause: String)
    requires
        m.phase == Phase::Transforming,
    ensures
        next(m, Event::Failed(cause)) == abort(m, ErrorKind::Transform, cause@),
        forall|e: Event| !fits(#[trigger] next(m, Event::Failed(cause)).0, e),
{
}

impl Session {
    pub open spec fn wf(&self) -> bool {
        model_wf(self@)
    }

    /// A fresh session, about to bind its listener.
    pub fn new() -> (s: Session)
        ensures
            s.wf(),
            s@ == (SessionModel { phase: Phase::Binding, length: 0, received: Seq::empty() }),
    {
        Session { phase: Phase::Binding, length: 0, buffer: Vec::new() }
    }

    pub fn phase(&self) -> (p: Phase)
        ensures
            p == self@.phase,
    {
        self.phase
    }

    pub fn announced_length(&self) -> (n: usize)
        ensures
            n == self@.length,
    {
        self.length
    }

    fn fail(&mut self, kind: ErrorKind, message: String) -> (a: Action)
        requires
            old(self).wf(),
        ensures
            (final(self)@, a@) == abort(old(self)@, kind, message@),
            final(self).wf(),
    {
        self.phase = Phase::Failed;
        Action::Abort(SessionError { kind, message })
    }

    /// Takes the outcome of the last action and returns the next one.
    pub fn step(&mut self, event: Event) -> (a: Action)
        requires
            old(self).wf(),
            fits(old(self)@, event),
        ensures
            final(self).wf(),
            (final(self)@, a@) == next(old(self)@, event),
    {
        match event {
            Event::Failed(cause) => {
                let kind = match self.phase {
                    Phase::Binding => ErrorKind::Bind,
                    Phase::AcceptingLength | Phase::AcceptingPayload => ErrorKind::Accept,
                    Phase::Transforming => ErrorKind::Transform,
                    Phase::Writing | Phase::Flushing => ErrorKind::Write,
                    _ => ErrorKind::Read,
                };
                self.fail(kind, cause)
            },
            Event::Done => {
                if self.phase == Phase::Binding {
                    self.phase = Phase::AcceptingLength;
                    Action::AcceptLength
                } else if self.phase == Phase::AcceptingLength {
                    self.phase = Phase::ReadingLength;
                    Action::ReadLength(LENGTH_CHUNK)
                } else if self.phase == Phase::AcceptingPayload {
                    if self.length == 0 {
                        self.phase = Phase::Transforming;
                        let empty: Vec<u8> = Vec::new();
                        assert(empty@ =~= Seq::<u8>::empty());
                        Action::Transform(empty)
                    } else {
                        self.phase = Phase::ReadingPayload;
                        Action::ReadPayload(self.length)
                    }
                } else if self.phase == Phase::Writing {
                    self.phase = Phase::Flushing;
                    Action::Flush
                } else {
                    self.phase = Phase::Finished;
                    Action::Finish
                }
            },
            Event::Data(bytes) => {
                if self.phase == Phase::ReadingLength {
                    match announced_length(bytes.as_slice()) {
                        Ok(n) => {
                            self.phase = Phase::AcceptingPayload;
                            self.length = n;
                            assert(self.buffer@ =~= Seq::<u8>::empty());
                            Action::AcceptPayload
                        },
                        Err(LengthError::Encoding) => self.fail(ErrorKind::Encoding, String::new()),
                        Err(LengthError::Parse(t)) => self.fail(ErrorKind::Parse, t),
                    }
                } else if bytes.len() == 0 {
                    self.fail(ErrorKind::ShortRead, String::new())
                } else {
                    let ghost before = self.buffer@;
                    let ghost chunk = bytes@;
                    let mut bytes = bytes;
                    self.buffer.append(&mut bytes);
                    assert(self.buffer@ =~= before + chunk);
                    if self.buffer.len() == self.length {
                        let mut payload: Vec<u8> = Vec::new();
                        std::mem::swap(&mut payload, &mut self.buffer);
                        assert(self.buffer@ =~= Seq::<u8>::empty());
                        self.phase = Phase::Transforming;
                        Action::Transform(payload)
                    } else {
                        Action::ReadPayload(self.length - self.buffer.len())
                    }
                }
            },
            Event::Produced(out) => {
                self.phase = Phase::Writing;
                Action::WriteAll(out)
            },
        }
    }
}

} // verus!
