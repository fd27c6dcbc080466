//! A byte buffer that is filled from, and drained to, a non-blocking transport.
//!
//! The transport itself is not part of this module. A caller performs one read or
//! write attempt at a time and reports what came of it as a [`ReadEvent`] or a
//! [`WriteEvent`]; the buffer decides what happens to its storage and whether the
//! caller goes on, waits for the transport, is done, or has failed.
//!
//! Every operation is specified over [`BufferView`], and the laws at the end of the
//! file speak of whole sequences of events.

use vstd::prelude::*;

verus! {

/// The I/O error of the standard library, carried through unchanged.
#[verifier::external_type_specification]
#[verifier::external_body]
pub struct ExIoError(std::io::Error);

/// Length of the first allocation of a growable buffer.
pub const DEFAULT_BUF_SIZE: usize = 4096;

/// No buffer grows beyond this length.
pub const GROWTH_CEILING: usize = usize::MAX;

/// What one read attempt on the transport produced.
pub enum ReadEvent {
    /// The bytes that were read. No bytes at all means that the peer is done.
    Data(Vec<u8>),
    /// Nothing can be read right now.
    WouldBlock,
    /// The transport failed.
    Failed(std::io::Error),
}

/// What one write attempt on the transport produced.
pub enum WriteEvent {
    /// The transport took that many of the pending bytes.
    Written(usize),
    /// Nothing can be written right now.
    WouldBlock,
    /// The transport failed.
    Failed(std::io::Error),
}

/// What the caller does after an event was handled without error.
#[derive(Clone, Copy, Debug, PartialEq, Eq, Structural)]
pub enum Progress {
    /// Make the next attempt at once.
    Again,
    /// Come back when the transport is ready.
    Blocked,
    /// The buffer is full (reading) or drained (writing).
    Done,
}

/// Why a transfer ended in an error.
#[derive(Debug)]
pub enum TransferError {
    /// The peer was done before a fixed buffer was full.
    Incomplete { expected: usize, got: usize },
    /// The transport accepted a write and took nothing.
    WriteZero,
    /// The failure that the transport reported.
    Io(std::io::Error),
}

/// Mathematical form of a [`ReadEvent`].
pub enum ReadEventView {
    Data(Seq<u8>),
    WouldBlock,
    Failed(std::io::Error),
}

impl View for ReadEvent {
    type V = ReadEventView;

    open spec fn view(&self) -> ReadEventView {
        match *self {
            ReadEvent::Data(bytes) => ReadEventView::Data(bytes@),
            ReadEvent::WouldBlock => ReadEventView::WouldBlock,
            ReadEvent::Failed(e) => ReadEventView::Failed(e),
        }
    }
}

/// The outcome of handling one event.
pub type Outcome = Result<Progress, TransferError>;

/// Mathematical form of a [`Buffer`].
pub struct BufferView {
    /// The stored bytes.
    pub content: Seq<u8>,
    /// How many of them were read in, or written out, so far.
    pub pos: nat,
    /// Whether the storage grows when it is full.
    pub growable: bool,
}

/// `n` zero bytes.
pub open spec fn zeros(n: nat) -> Seq<u8> {
    Seq::new(n, |i: int| 0u8)
}

/// The length that a full growable buffer of length `len` grows to.
pub open spec fn grown_len(len: nat) -> nat {
    if len < DEFAULT_BUF_SIZE {
        DEFAULT_BUF_SIZE as nat
    } else if 2 * len > GROWTH_CEILING {
        GROWTH_CEILING as nat
    } else {
        2 * len
    }
}

impl BufferView {
    /// The position lies within the storage, and the storage fits in memory.
    pub open spec fn wf(self) -> bool {
        self.pos <= self.content.len() <= usize::MAX
    }

    /// The bytes before the position.
    pub open spec fn done(self) -> Seq<u8> {
        self.content.take(self.pos as int)
    }

    /// The bytes from the position on.
    pub open spec fn pending(self) -> Seq<u8> {
        self.content.skip(self.pos as int)
    }

    /// The buffer as a read attempt finds it: a growable buffer that is full has
    /// grown, by zero bytes at its end.
    pub open spec fn prepared(self) -> BufferView {
        if self.growable && self.pos == self.content.len() {
            BufferView {
                content: self.content + zeros(
                    (grown_len(self.content.len()) - self.content.len()) as nat,
                ),
                ..self
            }
        } else {
            self
        }
    }

    /// How many bytes the next read attempt may deliver.
    pub open spec fn window(self) -> nat {
        (self.prepared().content.len() - self.pos) as nat
    }

    /// The buffer with `bytes` stored at the position, and the position behind them.
    pub open spec fn filled(self, bytes: Seq<u8>) -> BufferView {
        BufferView {
            content: self.done() + bytes + self.content.skip((self.pos + bytes.len()) as int),
            pos: self.pos + bytes.len(),
            ..self
        }
    }

    /// Whether `event` can be the result of a read attempt on this buffer.
    pub open spec fn admits_read(self, event: ReadEventView) -> bool {
        event matches ReadEventView::Data(bytes) ==> bytes.len() <= self.window()
    }

    /// The buffer and the outcome after one read attempt that produced `event`.
    pub open spec fn read_step(self, event: ReadEventView) -> (BufferView, Outcome) {
        let ready = self.prepared();
        match event {
            ReadEventView::Data(bytes) => {
                if bytes.len() == 0 {
                    if self.growable {
                        (BufferView { content: self.done(), ..self }, Ok(Progress::Done))
                    } else if self.pos != self.content.len() {
                        (
                            self,
                            Err(
                                TransferError::Incomplete {
                                    expected: self.content.len() as usize,
                                    got: self.pos as usize,
                                },
                            ),
                        )
                    } else {
                        (self, Ok(Progress::Done))
                    }
                } else {
                    let full = ready.filled(bytes);
                    if !self.growable && full.pos == full.content.len() {
                        (full, Ok(Progress::Done))
                    } else {
                        (full, Ok(Progress::Again))
                    }
                }
            },
            ReadEventView::WouldBlock => (ready, Ok(Progress::Blocked)),
            ReadEventView::Failed(e) => (ready, Err(TransferError::Io(e))),
        }
    }

    /// Whether `event` can be the result of a write attempt on this buffer.
    pub open spec fn admits_write(self, event: WriteEvent) -> bool {
        event matches WriteEvent::Written(n) ==> n <= self.content.len() - self.pos
    }

    /// The buffer and the outcome after one write attempt that produced `event`.
    /// A drained buffer is done whatever the event.
    pub open spec fn write_step(self, event: WriteEvent) -> (BufferView, Outcome) {
        if self.pos == self.content.len() {
            (self, Ok(Progress::Done))
        } else {
            match event {
                WriteEvent::Written(n) => {
                    if n == 0 {
                        (self, Err(TransferError::WriteZero))
                    } else {
                        let next = BufferView { pos: self.pos + n as nat, ..self };
                        if next.pos == next.content.len() {
                            (next, Ok(Progress::Done))
                        } else {
                            (next, Ok(Progress::Again))
                        }
                    }
                },
                WriteEvent::WouldBlock => (self, Ok(Progress::Blocked)),
                WriteEvent::Failed(e) => (self, Err(TransferError::Io(e))),
            }
        }
    }

    /// The bytes that a write attempt with result `event` handed to the transport.
    pub open spec fn delivered(self, event: WriteEvent) -> Seq<u8> {
        match event {
            WriteEvent::Written(n) => self.pending().take(n as int),
            _ => Seq::empty(),
        }
    }
}

/// A byte buffer with a position. A fixed buffer keeps the length it was made with;
/// a growable one starts empty and grows while it is read into.
#[derive(Debug)]
pub struct Buffer {
    content: Vec<u8>,
    pos: usize,
    growable: bool,
}

impl View for Buffer {
    type V = BufferView;

    closed spec fn view(&self) -> BufferView {
        BufferView { content: self.content@, pos: self.pos as nat, growable: self.growable }
    }
}

/// The length that a full growable buffer of length `len` grows to.
fn grown(len: usize) -> (r: usize)
    ensures
        r == grown_len(len as nat),
        r >= len,
{
    if len < DEFAULT_BUF_SIZE {
        DEFAULT_BUF_SIZE
    } else if len > GROWTH_CEILING / 2 {
        GROWTH_CEILING
    } else {
        2 * len
    }
}

impl Buffer {
    #[verifier::type_invariant]
    spec fn inv(self) -> bool {
        self.pos <= self.content.len()
    }

    /// An empty, growable buffer.
    pub fn new() -> (b: Buffer)
        ensures
            b@ == (BufferView { content: Seq::empty(), pos: 0, growable: true }),
            b@.wf(),
    {
        Buffer { content: Vec::new(), pos: 0, growable: true }
    }

    /// A fixed buffer of `capacity` zero bytes.
    pub fn new_fixed(capacity: usize) -> (b: Buffer)
        ensures
            b@ == (BufferView { content: zeros(capacity as nat), pos: 0, growable: false }),
            b@.wf(),
    {
        let content = vec![0u8; capacity];
        assert(content@ =~= zeros(capacity as nat));
        Buffer { content, pos: 0, growable: false }
    }

    /// Cuts the storage to `capacity` bytes, or extends it to that length with zero
    /// bytes. The position stays, so it must lie within the new length.
    pub fn set_capacity(&mut self, capacity: usize)
        requires
            old(self)@.pos <= capacity,
        ensures
            final(self)@.content == if capacity <= old(self)@.content.len() {
                old(self)@.content.take(capacity as int)
            } else {
                old(self)@.content + zeros((capacity - old(self)@.content.len()) as nat)
            },
            final(self)@.pos == old(self)@.pos,
            final(self)@.growable == old(self)@.growable,
            final(self)@.wf(),
    {
        let Buffer { mut content, pos, growable } = self.unload();
        let ghost before = content@;
        content.resize(capacity, 0u8);
        proof {
            if capacity <= before.len() {
                assert(content@ =~= before.take(capacity as int));
            } else {
                assert(content@ =~= before + zeros((capacity - before.len()) as nat)) by {
                    assert forall|i: int| 0 <= i < before.len() implies content@[i]
                        == before[i] by {
                        assert(content@.subrange(0, before.len() as int)[i] == before[i]);
                    }
                }
            }
        }
        *self = Buffer { content, pos, growable };
    }

    /// How many bytes the next read attempt may deliver: the room behind the
    /// position, after the growth that a read attempt on a full growable buffer
    /// begins with.
    pub fn window(&self) -> (r: usize)
        ensures
            r == self@.window(),
    {
        proof {
            use_type_invariant(self);
        }
        if self.growable && self.pos == self.content.len() {
            grown(self.content.len()) - self.pos
        } else {
            self.content.len() - self.pos
        }
    }

    /// Handles the result of one read attempt. Bytes that were read are stored at
    /// the position. A read of no bytes ends the transfer: a growable buffer is cut
    /// to what it received, a fixed one must be full.
    pub fn read_from(&mut self, event: ReadEvent) -> (r: Outcome)
        requires
            old(self)@.admits_read(event@),
        ensures
            (final(self)@, r) == old(self)@.read_step(event@),
            final(self)@.wf(),
    {
        proof {
            use_type_invariant(&*self);
        }
        let Buffer { mut content, pos, growable } = self.unload();
        let ghost before = content@;
        if growable && pos == content.len() {
            let len = grown(content.len());
            content.resize(len, 0u8);
            assert(content@ =~= before + zeros((len - before.len()) as nat)) by {
                assert forall|i: int| 0 <= i < before.len() implies content@[i] == before[i] by {
                    assert(content@.subrange(0, before.len() as int)[i] == before[i]);
                }
            }
        }
        let ghost ready = content@;
        match event {
            ReadEvent::Data(bytes) => {
                let n = bytes.len();
                if n == 0 {
                    if growable {
                        content.truncate(pos);
                        assert(content@ =~= before.take(pos as int));
                        *self = Buffer { content, pos, growable };
                        Ok(Progress::Done)
                    } else if pos != content.len() {
                        let expected = content.len();
                        *self = Buffer { content, pos, growable };
                        Err(TransferError::Incomplete { expected, got: pos })
                    } else {
                        *self = Buffer { content, pos, growable };
                        Ok(Progress::Done)
                    }
                } else {
                    let mut i: usize = 0;
                    while i < n
                        invariant
                            i <= n,
                            n == bytes@.len(),
                            pos + n <= content.len(),
                            content@.len() == ready.len(),
                            forall|k: int| 0 <= k < pos ==> content@[k] == ready[k],
                            forall|k: int| pos <= k < pos + i ==> content@[k] == bytes@[k - pos],
                            forall|k: int| pos + i <= k < ready.len() ==> content@[k] == ready[k],
                        decreases n - i,
                    {
                        content.set(pos + i, bytes[i]);
                        i += 1;
                    }
                    assert(content@ =~= ready.take(pos as int) + bytes@ + ready.skip(
                        (pos + n) as int,
                    ));
                    let done = !growable && pos + n == content.len();
                    *self = Buffer { content, pos: pos + n, growable };
                    if done {
                        Ok(Progress::Done)
                    } else {
                        Ok(Progress::Again)
                    }
                }
            },
            ReadEvent::WouldBlock => {
                *self = Buffer { content, pos, growable };
                Ok(Progress::Blocked)
            },
            ReadEvent::Failed(e) => {
                *self = Buffer { content, pos, growable };
                Err(TransferError::Io(e))
            },
        }
    }

    /// The bytes from the position on: what the next write attempt offers to the
    /// transport.
    pub fn pending(&self) -> (r: &[u8])
        ensures
            r@ == self@.pending(),
    {
        proof {
            use_type_invariant(self);
        }
        vstd::slice::slice_subrange(self.content.as_slice(), self.pos, self.content.len())
    }

    /// Handles the result of one write attempt on the pending bytes. A drained
    /// buffer is done; a write that took nothing is an error.
    pub fn write_to(&mut self, event: WriteEvent) -> (r: Outcome)
        requires
            old(self)@.admits_write(event),
        ensures
            (final(self)@, r) == old(self)@.write_step(event),
            final(self)@.wf(),
    {
        proof {
            use_type_invariant(&*self);
        }
        if self.pos == self.content.len() {
            return Ok(Progress::Done);
        }
        match event {
            WriteEvent::Written(n) => {
                if n == 0 {
                    Err(TransferError::WriteZero)
                } else {
                    self.pos = self.pos + n;
                    if self.pos == self.content.len() {
                        Ok(Progress::Done)
                    } else {
                        Ok(Progress::Again)
                    }
                }
            },
            WriteEvent::WouldBlock => Ok(Progress::Blocked),
            WriteEvent::Failed(e) => Err(TransferError::Io(e)),
        }
    }

    /// Moves the buffer out from behind the reference and leaves an empty one.
    fn unload(&mut self) -> (b: Buffer)
        ensures
            b == *old(self),
    {
        let mut b = Buffer { content: Vec::new(), pos: 0, growable: true };
        core::mem::swap(self, &mut b);
        b
    }

    /// Whether every stored byte lies before the position.
    pub fn is_empty(&self) -> (r: bool)
        ensures
            r == (self@.pos == self@.content.len()),
    {
        self.pos == self.content.len()
    }

    /// The number of stored bytes.
    pub fn len(&self) -> (r: usize)
        ensures
            r == self@.content.len(),
    {
        self.content.len()
    }

    /// The stored bytes.
    pub fn as_ref(&self) -> (r: &[u8])
        ensures
            r@ == self@.content,
    {
        self.content.as_slice()
    }

    /// Replaces the stored bytes and keeps the position, which must lie within them.
    pub fn send(&mut self, content: Vec<u8>)
        requires
            old(self)@.pos <= content@.len(),
        ensures
            final(self)@ == (BufferView { content: content@, ..old(self)@ }),
            final(self)@.wf(),
    {
        self.content = content;
    }

    /// Hands the stored bytes over and leaves the buffer empty, at position 0.
    pub fn take(&mut self) -> (bytes: Vec<u8>)
        ensures
            bytes@ == old(self)@.content,
            final(self)@ == (BufferView { content: Seq::empty(), pos: 0, ..old(self)@ }),
            final(self)@.wf(),
    {
        let Buffer { content, pos: _, growable } = self.unload();
        *self = Buffer { content: Vec::new(), pos: 0, growable };
        content
    }
}

impl vstd::std_specs::convert::FromSpecImpl<Vec<u8>> for Buffer {
    open spec fn obeys_from_spec() -> bool {
        true
    }

    closed spec fn from_spec(content: Vec<u8>) -> Buffer {
        Buffer { content, pos: 0, growable: true }
    }
}

impl From<Vec<u8>> for Buffer {
    /// A growable buffer that holds `content`, at position 0.
    fn from(content: Vec<u8>) -> (b: Buffer)
        ensures
            b@ == (BufferView { content: content@, pos: 0, growable: true }),
            b@.wf(),
    {
        Buffer { content, pos: 0, growable: true }
    }
}

/// A read attempt as a transport makes it while the peer has more to send: at least
/// one byte, or a refusal for now.
pub open spec fn is_chunk(event: ReadEventView) -> bool {
    match event {
        ReadEventView::Data(bytes) => bytes.len() > 0,
        ReadEventView::WouldBlock => true,
        ReadEventView::Failed(_) => false,
    }
}

/// The read attempt that tells that the peer is done.
pub open spec fn end_of_data() -> ReadEventView {
    ReadEventView::Data(Seq::empty())
}

/// The bytes that read attempts delivered, in order.
pub open spec fn supplied(events: Seq<ReadEventView>) -> Seq<u8>
    decreases events.len(),
{
    if events.len() == 0 {
        Seq::empty()
    } else {
        let rest = supplied(events.drop_first());
        match events[0] {
            ReadEventView::Data(bytes) => bytes + rest,
            _ => rest,
        }
    }
}

/// A write attempt as a transport makes it while it works: it takes at least one
/// byte, or refuses for now.
pub open spec fn is_partial_write(event: WriteEvent) -> bool {
    match event {
        WriteEvent::Written(n) => n > 0,
        WriteEvent::WouldBlock => true,
        WriteEvent::Failed(_) => false,
    }
}

/// How many bytes write attempts took in all.
pub open spec fn written(events: Seq<WriteEvent>) -> nat
    decreases events.len(),
{
    if events.len() == 0 {
        0
    } else {
        let rest = written(events.drop_first());
        match events[0] {
            WriteEvent::Written(n) => n as nat + rest,
            _ => rest,
        }
    }
}

/// Whether the transfer goes on after this outcome.
pub open spec fn carries_on(outcome: Outcome) -> bool {
    outcome == Ok::<Progress, TransferError>(Progress::Again) || outcome == Ok::<
        Progress,
        TransferError,
    >(Progress::Blocked)
}

impl BufferView {
    /// Whether each of `events` can be the result of a read attempt on the buffer as
    /// the events before it left it.
    pub open spec fn admits_reads(self, events: Seq<ReadEventView>) -> bool
        decreases events.len(),
    {
        events.len() == 0 || (self.admits_read(events[0]) && self.read_step(
            events[0],
        ).0.admits_reads(events.drop_first()))
    }

    /// The buffer and the outcome after the read attempts `events`, handled in order
    /// up to the first one that ends the transfer.
    pub open spec fn read_all(self, events: Seq<ReadEventView>) -> (BufferView, Outcome)
        decreases events.len(),
    {
        if events.len() == 0 {
            (self, Ok(Progress::Again))
        } else {
            let (next, outcome) = self.read_step(events[0]);
            if carries_on(outcome) && events.len() > 1 {
                next.read_all(events.drop_first())
            } else {
                (next, outcome)
            }
        }
    }

    /// Whether each of `events` can be the result of a write attempt on the buffer
    /// as the events before it left it.
    pub open spec fn admits_writes(self, events: Seq<WriteEvent>) -> bool
        decreases events.len(),
    {
        events.len() == 0 || (self.admits_write(events[0]) && self.write_step(
            events[0],
        ).0.admits_writes(events.drop_first()))
    }

    /// The buffer, the bytes handed to the transport and the outcome after the write
    /// attempts `events`, handled in order up to the first one that ends the
    /// transfer. No attempt is made on a drained buffer.
    pub open spec fn write_all(self, events: Seq<WriteEvent>) -> (BufferView, Seq<u8>, Outcome)
        decreases events.len(),
    {
        if self.pos == self.content.len() {
            (self, Seq::empty(), Ok(Progress::Done))
        } else if events.len() == 0 {
            (self, Seq::empty(), Ok(Progress::Again))
        } else {
            let (next, outcome) = self.write_step(events[0]);
            let first = self.delivered(events[0]);
            if carries_on(outcome) && events.len() > 1 {
                let (last, rest, end) = next.write_all(events.drop_first());
                (last, first + rest, end)
            } else {
                (next, first, outcome)
            }
        }
    }
}

/// Reading keeps the buffer well formed.
pub proof fn lemma_read_step_wf(v: BufferView, event: ReadEventView)
    requires
        v.wf(),
        v.admits_read(event),
    ensures
        v.read_step(event).0.wf(),
        v.read_step(event).0.growable == v.growable,
{
}

/// What a chunk does to a buffer that is not full: the bytes before the position
/// are followed by the chunk's bytes, and the transfer goes on unless a fixed
/// buffer became full.
proof fn lemma_chunk_extends(v: BufferView, event: ReadEventView)
    requires
        v.wf(),
        v.admits_read(event),
        is_chunk(event),
    ensures
        ({
            let (next, outcome) = v.read_step(event);
            &&& next.wf()
            &&& next.growable == v.growable
            &&& next.done() == v.done() + supplied(seq![event])
            &&& !v.growable ==> next.content.len() == v.content.len()
            &&& carries_on(outcome) || (!v.growable && next.pos == next.content.len() && outcome
                == Ok::<Progress, TransferError>(Progress::Done))
            &&& !v.growable && next.pos == next.content.len() && v.pos < v.content.len()
                ==> !carries_on(outcome)
        }),
{
    let (next, outcome) = v.read_step(event);
    assert(seq![event].drop_first() =~= Seq::<ReadEventView>::empty());
    assert(supplied(seq![event].drop_first()) == Seq::<u8>::empty());
    match event {
        ReadEventView::Data(bytes) => {
            assert(supplied(seq![event]) =~= bytes);
            assert(next.done() =~= v.done() + bytes);
        },
        _ => {
            assert(supplied(seq![event]) =~= Seq::<u8>::empty());
            assert(next.done() =~= v.done());
        },
    }
}

/// The bytes of a sequence of read attempts that begins with `first`.
proof fn lemma_supplied_split(first: ReadEventView, rest: Seq<ReadEventView>)
    ensures
        supplied(seq![first] + rest) == supplied(seq![first]) + supplied(rest),
{
    let all = seq![first] + rest;
    assert(all.drop_first() =~= rest);
    assert(seq![first].drop_first() =~= Seq::<ReadEventView>::empty());
    assert(supplied(seq![first].drop_first()) == Seq::<u8>::empty());
    match first {
        ReadEventView::Data(bytes) => {
            assert(supplied(seq![first]) =~= bytes);
        },
        _ => {
            assert(supplied(seq![first]) =~= Seq::<u8>::empty());
            assert(supplied(all) =~= supplied(rest));
        },
    }
}

/// Growth: a growable buffer that is read into chunk by chunk, in any division of
/// the input and with any refusals in between, holds on the end of the data the
/// bytes it held before its position followed by exactly the bytes it was given,
/// with no padding behind them.
pub proof fn lemma_growable_read_keeps_what_was_supplied(
    v: BufferView,
    events: Seq<ReadEventView>,
)
    requires
        v.wf(),
        v.growable,
        forall|i: int| 0 <= i < events.len() ==> is_chunk(#[trigger] events[i]),
        v.admits_reads(events),
    ensures
        v.read_all(events.push(end_of_data())) == (
            BufferView {
                content: v.done() + supplied(events),
                pos: v.pos + supplied(events).len(),
                growable: true,
            },
            Ok::<Progress, TransferError>(Progress::Done),
        ),
    decreases events.len(),
{
    let all = events.push(end_of_data());
    if events.len() == 0 {
        assert(all.len() == 1);
        assert(supplied(events) =~= Seq::<u8>::empty());
        assert(v.done() + supplied(events) =~= v.done());
    } else {
        let first = events[0];
        let rest = events.drop_first();
        let (next, outcome) = v.read_step(first);
        lemma_chunk_extends(v, first);
        assert(all.drop_first() =~= rest.push(end_of_data()));
        assert(all[0] == first);
        assert forall|i: int| 0 <= i < rest.len() implies is_chunk(#[trigger] rest[i]) by {
            assert(rest[i] == events[i + 1]);
        }
        lemma_growable_read_keeps_what_was_supplied(next, rest);
        assert(events =~= seq![first] + rest);
        lemma_supplied_split(first, rest);
        assert(next.done() + supplied(rest) =~= v.done() + supplied(events));
    }
}

/// A fixed buffer that is full admits no further byte.
proof fn lemma_full_fixed_gets_nothing(v: BufferView, events: Seq<ReadEventView>)
    requires
        v.wf(),
        !v.growable,
        v.pos == v.content.len(),
        forall|i: int| 0 <= i < events.len() ==> is_chunk(#[trigger] events[i]),
        v.admits_reads(events),
    ensures
        supplied(events) == Seq::<u8>::empty(),
    decreases events.len(),
{
    if events.len() > 0 {
        let rest = events.drop_first();
        assert(is_chunk(events[0]));
        assert(v.read_step(events[0]).0 == v);
        assert forall|i: int| 0 <= i < rest.len() implies is_chunk(#[trigger] rest[i]) by {
            assert(rest[i] == events[i + 1]);
        }
        lemma_full_fixed_gets_nothing(v, rest);
    }
}

/// Completeness: a fixed buffer that is read into chunk by chunk, in any division
/// of the input and with any refusals in between, never takes more than its
/// length. When the data ends, the transfer is complete if the buffer is full, and
/// is an error that names both counts if it is not. Either way the bytes before
/// the position are those it held there before, followed by those it was given.
pub proof fn lemma_fixed_read_completes_iff_filled(v: BufferView, events: Seq<ReadEventView>)
    requires
        v.wf(),
        !v.growable,
        forall|i: int| 0 <= i < events.len() ==> is_chunk(#[trigger] events[i]),
        v.admits_reads(events),
    ensures
        ({
            let total = v.pos + supplied(events).len();
            let (last, outcome) = v.read_all(events.push(end_of_data()));
            &&& total <= v.content.len()
            &&& last.pos == total
            &&& last.content.len() == v.content.len()
            &&& last.done() == v.done() + supplied(events)
            &&& total == v.content.len() ==> outcome == Ok::<Progress, TransferError>(
                Progress::Done,
            )
            &&& total < v.content.len() ==> outcome == Err::<Progress, TransferError>(
                TransferError::Incomplete {
                    expected: v.content.len() as usize,
                    got: total as usize,
                },
            )
        }),
    decreases events.len(),
{
    let all = events.push(end_of_data());
    if events.len() == 0 {
        assert(all.len() == 1);
        assert(supplied(events) =~= Seq::<u8>::empty());
        assert(v.done() + supplied(events) =~= v.done());
    } else {
        let first = events[0];
        let rest = events.drop_first();
        let (next, outcome) = v.read_step(first);
        lemma_chunk_extends(v, first);
        assert(all.drop_first() =~= rest.push(end_of_data()));
        assert(all[0] == first);
        assert forall|i: int| 0 <= i < rest.len() implies is_chunk(#[trigger] rest[i]) by {
            assert(rest[i] == events[i + 1]);
        }
        assert(events =~= seq![first] + rest);
        lemma_supplied_split(first, rest);
        if carries_on(outcome) {
            lemma_fixed_read_completes_iff_filled(next, rest);
            assert(next.done() + supplied(rest) =~= v.done() + supplied(events));
        } else {
            lemma_full_fixed_gets_nothing(next, rest);
            assert(next.done() + supplied(rest) =~= next.done());
        }
    }
}

/// Writing in parts: however the transport divides a write into partial writes,
/// with any refusals in between, the bytes it was handed are, in order and each
/// once, the pending bytes up to where the position then stands, and the content
/// does not change. The transfer is done exactly when all of them were taken.
pub proof fn lemma_partial_writes_deliver_in_order(v: BufferView, events: Seq<WriteEvent>)
    requires
        v.wf(),
        forall|i: int| 0 <= i < events.len() ==> is_partial_write(#[trigger] events[i]),
        v.admits_writes(events),
    ensures
        ({
            let (last, out, outcome) = v.write_all(events);
            &&& v.pos + written(events) <= v.content.len()
            &&& last == BufferView { pos: v.pos + written(events), ..v }
            &&& out == v.pending().take(written(events) as int)
            &&& last.pos == v.content.len() ==> out == v.pending()
            &&& outcome == Ok::<Progress, TransferError>(Progress::Done) <==> last.pos
                == v.content.len()
            &&& outcome is Ok
        }),
    decreases events.len(),
{
    if v.pos == v.content.len() {
        lemma_drained_takes_nothing(v, events);
        assert(v.pending().take(0) =~= Seq::<u8>::empty());
        assert(v.pending() =~= Seq::<u8>::empty());
    } else if events.len() == 0 {
        assert(v.pending().take(0) =~= Seq::<u8>::empty());
    } else {
        let first = events[0];
        let rest = events.drop_first();
        let (next, outcome) = v.write_step(first);
        let head = v.delivered(first);
        assert(is_partial_write(first));
        assert forall|i: int| 0 <= i < rest.len() implies is_partial_write(#[trigger] rest[i]) by {
            assert(rest[i] == events[i + 1]);
        }
        lemma_partial_writes_deliver_in_order(next, rest);
        let (last, tail, end) = next.write_all(rest);
        let taken = (next.pos - v.pos) as nat;
        assert(written(events) == taken + written(rest));
        assert(head =~= v.pending().take(taken as int));
        assert(head + next.pending().take(written(rest) as int) =~= v.pending().take(
            written(events) as int,
        ));
        if v.pos + written(events) == v.content.len() {
            assert(v.pending().take(written(events) as int) =~= v.pending());
        }
        if !(carries_on(outcome) && events.len() > 1) {
            if carries_on(outcome) {
                assert(rest.len() == 0);
            } else {
                lemma_drained_takes_nothing(next, rest);
            }
            assert(written(rest) == 0);
            assert(next.pending().take(0) =~= Seq::<u8>::empty());
            assert(head + Seq::<u8>::empty() =~= head);
        }
    }
}

/// A drained buffer has nothing for a transport to take.
proof fn lemma_drained_takes_nothing(v: BufferView, events: Seq<WriteEvent>)
    requires
        v.wf(),
        v.pos == v.content.len(),
        forall|i: int| 0 <= i < events.len() ==> is_partial_write(#[trigger] events[i]),
        v.admits_writes(events),
    ensures
        written(events) == 0,
    decreases events.len(),
{
    if events.len() > 0 {
        let rest = events.drop_first();
        assert(is_partial_write(events[0]));
        assert(v.write_step(events[0]).0 == v);
        assert forall|i: int| 0 <= i < rest.len() implies is_partial_write(#[trigger] rest[i]) by {
            assert(rest[i] == events[i + 1]);
        }
        lemma_drained_takes_nothing(v, rest);
    }
}

} // verus!
