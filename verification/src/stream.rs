use crate::bytes::extend_bytes;
use vstd::prelude::*;

verus! {

/// What an inner stream answered to a poll.
#[derive(Clone, Copy, Debug, PartialEq, Eq, Structural)]
pub enum InnerReply {
    /// Not ready yet.
    Pending,
    /// An I/O error, which the caller keeps.
    Failed,
    /// Done: for a write, the number of bytes written; for a flush, 0.
    Ready(usize),
}

/// What a poll of the outer stream answers.
#[derive(Clone, Copy, Debug, PartialEq, Eq, Structural)]
pub enum WriteOutcome {
    /// Poll the inner stream again, as `next_call` says.
    Continue,
    /// Not ready yet: answer `Pending`.
    Pending,
    /// Answer the inner stream's error.
    Failed,
    /// Answer that this many bytes were written.
    Wrote(usize),
}

/// The call to make on the inner stream.
#[derive(Clone, Copy, Debug, PartialEq, Eq, Structural)]
pub enum InnerCall {
    Write,
    Flush,
}

/// Where a pushing write stands: about to write, or written this many bytes and
/// flushing them.
#[derive(Clone, Copy, Debug, PartialEq, Eq, Structural)]
pub enum PushState {
    Write,
    Flush(usize),
}

/// The next state and outcome of a pushing write after the inner stream's `reply`.
pub open spec fn spec_push_step(state: PushState, reply: InnerReply) -> (PushState, WriteOutcome) {
    match reply {
        InnerReply::Pending => (state, WriteOutcome::Pending),
        InnerReply::Failed => (state, WriteOutcome::Failed),
        InnerReply::Ready(n) => match state {
            PushState::Write => (PushState::Flush(n), WriteOutcome::Continue),
            PushState::Flush(wrote) => (PushState::Write, WriteOutcome::Wrote(wrote)),
        },
    }
}

/// A stream whose every write is flushed before it is reported: a write answers
/// only once the inner stream has written the bytes and flushed them.
pub struct PushingStream<S> {
    pub inner: S,
    state: PushState,
}

impl<S> PushingStream<S> {
    pub closed spec fn spec_state(self) -> PushState {
        self.state
    }

    pub closed spec fn spec_inner(self) -> S {
        self.inner
    }

    /// Wraps `inner`, about to write.
    pub fn new(inner: S) -> (r: PushingStream<S>)
        ensures
            r.spec_inner() == inner,
            r.spec_state() == PushState::Write,
    {
        PushingStream { inner, state: PushState::Write }
    }

    /// The call to make on the inner stream: a write, or the flush of a write.
    pub fn next_call(&self) -> (r: InnerCall)
        ensures
            r == (match self.spec_state() {
                PushState::Write => InnerCall::Write,
                PushState::Flush(_) => InnerCall::Flush,
            }),
    {
        match self.state {
            PushState::Write => InnerCall::Write,
            PushState::Flush(_) => InnerCall::Flush,
        }
    }

    /// Takes the inner stream's `reply` to the call `next_call` named.
    pub fn on_reply(&mut self, reply: InnerReply) -> (r: WriteOutcome)
        ensures
            (final(self).spec_state(), r) == spec_push_step(old(self).spec_state(), reply),
            final(self).spec_inner() == old(self).spec_inner(),
            reply is Failed ==> r == WriteOutcome::Failed && final(self).spec_state() == old(
                self,
            ).spec_state(),
            reply is Pending ==> r == WriteOutcome::Pending && final(self).spec_state() == old(
                self,
            ).spec_state(),
    {
        match reply {
            InnerReply::Pending => WriteOutcome::Pending,
            InnerReply::Failed => WriteOutcome::Failed,
            InnerReply::Ready(n) => match self.state {
                PushState::Write => {
                    self.state = PushState::Flush(n);
                    WriteOutcome::Continue
                },
                PushState::Flush(wrote) => {
                    self.state = PushState::Write;
                    WriteOutcome::Wrote(wrote)
                },
            },
        }
    }
}

/// Law: from the write state, a write of `n` bytes followed by a successful flush
/// answers `n` and is ready for the next write; no bytes are reported before the flush.
pub proof fn law_push_write_then_flush(n: usize, flushed: usize)
    ensures
        spec_push_step(PushState::Write, InnerReply::Ready(n)) == (
            PushState::Flush(n),
            WriteOutcome::Continue,
        ),
        spec_push_step(PushState::Flush(n), InnerReply::Ready(flushed)) == (
            PushState::Write,
            WriteOutcome::Wrote(n),
        ),
        forall|s: PushState, reply: InnerReply| #[trigger]
            spec_push_step(s, reply).1 is Wrote ==> s is Flush,
{
}

/// Law: an error of the inner stream, on the write or on its flush, is always answered
/// as that error, and a reply that is not ready is always answered as not ready; in
/// both cases the write stays where it was, to be polled again.
pub proof fn law_push_error_and_pending_pass_through(s: PushState)
    ensures
        spec_push_step(s, InnerReply::Failed) == (s, WriteOutcome::Failed),
        spec_push_step(s, InnerReply::Pending) == (s, WriteOutcome::Pending),
        forall|t: PushState, reply: InnerReply| #[trigger]
            spec_push_step(t, reply).1 is Failed <==> reply is Failed,
{
}

/// The capacity of the pipe of a splice.
pub const PIPE_BUFFER_SIZE: usize = 8192;

/// The pipe of a splice: its two ends, and how many bytes are in it.
pub struct Pipe {
    pub rpipe: i32,
    pub wpipe: i32,
    n: usize,
}

/// Where a splice from one socket to another stands: the pipe, and how many bytes were
/// read into it since the count was last taken.
pub struct SpliceState {
    pipe: Pipe,
    read: usize,
}

impl SpliceState {
    /// The bytes in the pipe, never more than its capacity.
    pub closed spec fn in_pipe(self) -> nat {
        self.pipe.n as nat
    }

    /// The bytes read since the count was last taken.
    pub closed spec fn spec_read(self) -> nat {
        self.read as nat
    }

    /// The two ends of the pipe.
    pub closed spec fn ends(self) -> (i32, i32) {
        (self.pipe.rpipe, self.pipe.wpipe)
    }

    pub closed spec fn wf(self) -> bool {
        self.pipe.n <= PIPE_BUFFER_SIZE
    }

    /// A splice over the pipe with ends `rpipe` and `wpipe`, empty.
    pub fn new(rpipe: i32, wpipe: i32) -> (r: SpliceState)
        ensures
            r.wf(),
            r.in_pipe() == 0,
            r.spec_read() == 0,
            r.ends() == (rpipe, wpipe),
    {
        SpliceState { pipe: Pipe { rpipe, wpipe, n: 0 }, read: 0 }
    }

    /// The end the splice reads the pipe from.
    pub fn read_end(&self) -> (r: i32)
        ensures
            r == self.ends().0,
    {
        self.pipe.rpipe
    }

    /// The end the splice writes the pipe to.
    pub fn write_end(&self) -> (r: i32)
        ensures
            r == self.ends().1,
    {
        self.pipe.wpipe
    }

    /// The bytes read since the count was last taken.
    pub fn read_so_far(&self) -> (r: usize)
        ensures
            r == self.spec_read(),
    {
        self.read
    }

    /// How many bytes to move into the pipe next: the room left, or `None` when full.
    pub fn fill_request(&self) -> (r: Option<usize>)
        requires
            self.wf(),
        ensures
            self.in_pipe() < PIPE_BUFFER_SIZE ==> r == Some((PIPE_BUFFER_SIZE - self.in_pipe()) as usize),
            self.in_pipe() >= PIPE_BUFFER_SIZE ==> r is None,
    {
        if self.pipe.n < PIPE_BUFFER_SIZE {
            Some(PIPE_BUFFER_SIZE - self.pipe.n)
        } else {
            None
        }
    }

    /// Counts `x` bytes moved into the pipe, at most the room that was asked for.
    pub fn on_filled(&mut self, x: usize)
        requires
            old(self).wf(),
            old(self).in_pipe() + x <= PIPE_BUFFER_SIZE,
            old(self).spec_read() + x <= usize::MAX,
        ensures
            final(self).wf(),
            final(self).in_pipe() == old(self).in_pipe() + x,
            final(self).spec_read() == old(self).spec_read() + x,
            final(self).ends() == old(self).ends(),
    {
        self.pipe.n = self.pipe.n + x;
        self.read = self.read + x;
    }

    /// How many bytes to move out of the pipe next: all it holds, or `None` when empty.
    pub fn drain_request(&self) -> (r: Option<usize>)
        ensures
            self.in_pipe() > 0 ==> r == Some(self.in_pipe() as usize),
            self.in_pipe() == 0 ==> r is None,
    {
        if self.pipe.n > 0 {
            Some(self.pipe.n)
        } else {
            None
        }
    }

    /// Counts `x` bytes moved out of the pipe, at most what it held.
    pub fn on_drained(&mut self, x: usize)
        requires
            old(self).wf(),
            x <= old(self).in_pipe(),
        ensures
            final(self).wf(),
            final(self).in_pipe() == old(self).in_pipe() - x,
            final(self).spec_read() == old(self).spec_read(),
            final(self).ends() == old(self).ends(),
    {
        self.pipe.n = self.pipe.n - x;
    }

    /// The bytes read since the count was last taken; the count starts again at 0.
    pub fn take_read(&mut self) -> (r: usize)
        ensures
            r == old(self).spec_read(),
            final(self).spec_read() == 0,
            final(self).in_pipe() == old(self).in_pipe(),
            final(self).ends() == old(self).ends(),
            final(self).wf() == old(self).wf(),
    {
        let read = self.read;
        self.read = 0;
        read
    }
}

/// The head of a Trojan TCP stream, sent before any other byte: the first write is
/// appended to it and goes out with it.
pub struct SendHead {
    head: Option<Vec<u8>>,
    is_first: bool,
}

impl SendHead {
    /// The head bytes not sent yet, or `None` once all are sent.
    pub closed spec fn spec_head(self) -> Option<Seq<u8>> {
        match self.head {
            Some(h) => Some(h@),
            None => None,
        }
    }

    /// Whether no write has been appended to the head yet.
    pub closed spec fn spec_is_first(self) -> bool {
        self.is_first
    }

    /// A head not sent yet.
    pub fn new(head: Vec<u8>) -> (r: SendHead)
        ensures
            r.spec_head() == Some(head@),
            r.spec_is_first(),
    {
        SendHead { head: Some(head), is_first: true }
    }

    /// Starts sending the head for a write of `buf`: the first such write is appended
    /// to the head.
    pub fn start(&mut self, buf: &[u8])
        ensures
            old(self).spec_head() matches Some(h) ==> (old(self).spec_is_first() ==> final(self).spec_head()
                == Some(h + buf@) && !final(self).spec_is_first()),
            !(old(self).spec_head() is Some && old(self).spec_is_first()) ==> *final(self)
                == *old(self),
    {
        if self.is_first {
            match &mut self.head {
                Some(h) => {
                    extend_bytes(h, buf);
                    self.is_first = false;
                },
                None => {},
            }
        }
    }

    /// The head bytes still to send, or `None` once all are sent.
    pub fn pending(&self) -> (r: Option<&[u8]>)
        ensures
            r is Some <==> self.spec_head() is Some,
            r matches Some(h) ==> h@ == self.spec_head()->0,
    {
        match &self.head {
            Some(h) => Some(h.as_slice()),
            None => None,
        }
    }

    /// Counts `sent` head bytes written. Once the head is all sent it is dropped and
    /// the write of `buf_len` bytes that carried it is answered with `buf_len`; until
    /// then the answer is `None`, and the rest of the head is written next.
    pub fn on_sent(&mut self, sent: usize, buf_len: usize) -> (r: Option<usize>)
        requires
            old(self).spec_head() is Some,
            sent <= old(self).spec_head()->0.len(),
        ensures
            final(self).spec_is_first() == old(self).spec_is_first(),
            sent == old(self).spec_head()->0.len() ==> r == Some(buf_len) && final(self).spec_head() is None,
            sent < old(self).spec_head()->0.len() ==> r is None && final(self).spec_head() == Some(
                old(self).spec_head()->0.skip(sent as int),
            ),
            final(self).spec_head() == after_sent(old(self).spec_head()->0, sent as int),
    {
        let rest: Option<Vec<u8>> = match &self.head {
            Some(h) => {
                let mut v: Vec<u8> = Vec::new();
                let mut i: usize = sent;
                while i < h.len()
                    invariant
                        sent <= i <= h@.len(),
                        v@ == h@.subrange(sent as int, i as int),
                    decreases h@.len() - i,
                {
                    v.push(h[i]);
                    assert(v@ =~= h@.subrange(sent as int, i + 1));
                    i = i + 1;
                }
                Some(v)
            },
            None => None,
        };
        match rest {
            Some(v) => {
                if v.len() == 0 {
                    self.head = None;
                    Some(buf_len)
                } else {
                    assert(v@ =~= old(self).spec_head()->0.skip(sent as int));
                    self.head = Some(v);
                    None
                }
            },
            None => None,
        }
    }
}

/// Law: sending the head in pieces sends it whole and in order: what is left after
/// `a` bytes and then `b` more is what is left after `a + b`, and once every byte is
/// sent nothing is left.
pub proof fn law_head_sent_in_order(head: Seq<u8>, a: nat, b: nat)
    requires
        a + b <= head.len(),
    ensures
        head.skip(a as int).skip(b as int) == head.skip((a + b) as int),
        head.take(a as int) + head.skip(a as int) == head,
        head.skip(head.len() as int).len() == 0,
{
    assert(head.skip(a as int).skip(b as int) =~= head.skip((a + b) as int));
    assert(head.take(a as int) + head.skip(a as int) =~= head);
}

/// What is left of the head `head` once `sent` more of its bytes are written: nothing
/// once all are, else the bytes after the first `sent`.
pub open spec fn after_sent(head: Seq<u8>, sent: int) -> Option<Seq<u8>> {
    if sent == head.len() {
        None
    } else {
        Some(head.skip(sent))
    }
}

/// The writes of `counts[0]`, `counts[1]`, ... bytes of what is left of the head, starting
/// from `head`, are each possible: none writes more than is left, and none comes after
/// the head is all sent.
pub open spec fn head_sends_valid(head: Seq<u8>, counts: Seq<int>) -> bool
    decreases counts.len(),
{
    if counts.len() == 0 {
        true
    } else {
        &&& 0 <= counts[0] <= head.len()
        &&& match after_sent(head, counts[0]) {
            None => counts.len() == 1,
            Some(rest) => head_sends_valid(rest, counts.drop_first()),
        }
    }
}

/// What is left of the head `head` after the writes of `counts`.
pub open spec fn head_left(head: Seq<u8>, counts: Seq<int>) -> Option<Seq<u8>>
    decreases counts.len(),
{
    if counts.len() == 0 {
        Some(head)
    } else {
        match after_sent(head, counts[0]) {
            None => None,
            Some(rest) => head_left(rest, counts.drop_first()),
        }
    }
}

/// The bytes that the writes of `counts` put on the stream, in order, starting from the
/// head `head`: each write takes the front of what is left.
pub open spec fn head_bytes_sent(head: Seq<u8>, counts: Seq<int>) -> Seq<u8>
    decreases counts.len(),
{
    if counts.len() == 0 {
        Seq::empty()
    } else {
        head.take(counts[0]) + match after_sent(head, counts[0]) {
            None => Seq::<u8>::empty(),
            Some(rest) => head_bytes_sent(rest, counts.drop_first()),
        }
    }
}

/// Law: however the writes split it, the head goes out whole, each byte once and in
/// order: what was written followed by what is left is the head, and the head is
/// dropped exactly when some write was made and everything written is the head.
pub proof fn law_head_sent_whole(head: Seq<u8>, counts: Seq<int>)
    requires
        head_sends_valid(head, counts),
    ensures
        head_left(head, counts) matches Some(rest) ==> head_bytes_sent(head, counts) + rest == head,
        head_left(head, counts) is None ==> head_bytes_sent(head, counts) == head,
        head_left(head, counts) is None <==> (counts.len() > 0 && head_bytes_sent(head, counts)
            == head),
    decreases counts.len(),
{
    if counts.len() == 0 {
        assert(head_bytes_sent(head, counts) =~= Seq::<u8>::empty());
        assert(Seq::<u8>::empty() + head =~= head);
    } else {
        let c = counts[0];
        match after_sent(head, c) {
            None => {
                assert(head.take(c) =~= head);
                assert(head_bytes_sent(head, counts) =~= head);
            },
            Some(rest) => {
                law_head_sent_whole(rest, counts.drop_first());
                let b = head_bytes_sent(rest, counts.drop_first());
                assert(head_bytes_sent(head, counts) == head.take(c) + b);
                assert(head.take(c) + rest =~= head);
                match head_left(rest, counts.drop_first()) {
                    Some(left) => {
                        assert(head.take(c) + b + left =~= head.take(c) + (b + left));
                        if head.take(c) + b == head {
                            assert((head.take(c) + b).len() == head.len());
                            assert(left.len() == 0);
                            assert(counts.drop_first().len() > 0 ==> b == rest);
                            if counts.drop_first().len() == 0 {
                                assert(b =~= Seq::<u8>::empty());
                                assert(head.take(c) + b =~= head.take(c));
                                assert(head.take(c).len() == c);
                            } else {
                                assert((head.take(c) + b).skip(c) =~= b);
                                assert(head.skip(c) =~= rest);
                            }
                        }
                    },
                    None => {
                        assert(head.take(c) + b =~= head);
                    },
                }
            },
        }
    }
}

/// The first `min(len, remaining)` bytes of `buf`: what one read serves from a buffer.
pub open spec fn spec_take_front(buf: Seq<u8>, remaining: nat) -> Seq<u8> {
    buf.take(
        if buf.len() < remaining {
            buf.len() as int
        } else {
            remaining as int
        },
    )
}

/// Moves the first `min(len, remaining)` bytes of `buf` out.
fn take_front(buf: &mut Vec<u8>, remaining: usize) -> (r: Vec<u8>)
    ensures
        r@ == spec_take_front(old(buf)@, remaining as nat),
        old(buf)@ == r@ + final(buf)@,
{
    let n = if buf.len() < remaining {
        buf.len()
    } else {
        remaining
    };
    let mut front: Vec<u8> = Vec::new();
    let mut rest: Vec<u8> = Vec::new();
    let mut i: usize = 0;
    while i < buf.len()
        invariant
            0 <= i <= buf@.len(),
            n <= buf@.len(),
            i <= n ==> front@ == buf@.take(i as int) && rest@.len() == 0,
            i > n ==> front@ == buf@.take(n as int) && rest@ == buf@.subrange(n as int, i as int),
        decreases buf@.len() - i,
    {
        if i < n {
            front.push(buf[i]);
            assert(front@ =~= buf@.take(i + 1));
        } else {
            rest.push(buf[i]);
            assert(rest@ =~= buf@.subrange(n as int, i + 1));
        }
        i = i + 1;
    }
    assert(old(buf)@ =~= front@ + rest@);
    *buf = rest;
    front
}

/// A stream that can be peeked: bytes read ahead wait in a buffer and are read first.
pub struct PeekableTcpStream<S> {
    pub tcp: S,
    buf: Vec<u8>,
}

impl<S> PeekableTcpStream<S> {
    /// The bytes read ahead, not read yet.
    pub closed spec fn spec_buf(self) -> Seq<u8> {
        self.buf@
    }

    pub closed spec fn spec_tcp(self) -> S {
        self.tcp
    }

    /// Wraps `tcp`, with nothing read ahead.
    pub fn new(tcp: S) -> (r: PeekableTcpStream<S>)
        ensures
            r.spec_tcp() == tcp,
            r.spec_buf() == Seq::<u8>::empty(),
    {
        PeekableTcpStream { tcp, buf: Vec::new() }
    }

    /// How many more bytes to read ahead before `size` bytes can be peeked.
    pub fn missing(&self, size: usize) -> (r: usize)
        ensures
            size > self.spec_buf().len() ==> r == size - self.spec_buf().len(),
            size <= self.spec_buf().len() ==> r == 0,
    {
        if size > self.buf.len() {
            size - self.buf.len()
        } else {
            0
        }
    }

    /// Keeps `bytes`, read ahead from the stream, behind those already kept.
    pub fn fill(&mut self, bytes: &[u8])
        ensures
            final(self).spec_buf() == old(self).spec_buf() + bytes@,
            final(self).spec_tcp() == old(self).spec_tcp(),
    {
        extend_bytes(&mut self.buf, bytes);
    }

    /// The first `n` bytes read ahead, which stay to be read.
    pub fn peek(&self, n: usize) -> (r: &[u8])
        requires
            n <= self.spec_buf().len(),
        ensures
            r@ == self.spec_buf().take(n as int),
    {
        let s = self.buf.as_slice();
        let r = &s[0..n];
        assert(r@ =~= self.buf@.take(n as int));
        r
    }

    /// A read of at most `remaining` bytes served from what was read ahead, or `None`
    /// when nothing is (the read then goes to the stream).
    pub fn read_buffered(&mut self, remaining: usize) -> (r: Option<Vec<u8>>)
        ensures
            old(self).spec_buf().len() == 0 ==> r is None && final(self).spec_buf() == old(self).spec_buf(),
            old(self).spec_buf().len() > 0 ==> (r matches Some(b) && b@ == spec_take_front(
                old(self).spec_buf(),
                remaining as nat,
            ) && old(self).spec_buf() == b@ + final(self).spec_buf()),
            final(self).spec_tcp() == old(self).spec_tcp(),
    {
        if self.buf.len() == 0 {
            None
        } else {
            Some(take_front(&mut self.buf, remaining))
        }
    }

    /// The stream and the bytes read ahead of it.
    pub fn into_inner(self) -> (r: (S, Vec<u8>))
        ensures
            r.0 == self.spec_tcp(),
            r.1@ == self.spec_buf(),
    {
        (self.tcp, self.buf)
    }
}

/// Law: peeking does not consume. After `n` bytes are read ahead and peeked, reading
/// gives those same bytes first.
pub proof fn law_peek_then_read(ahead: Seq<u8>, n: nat, remaining: nat)
    requires
        n <= ahead.len(),
        n <= remaining,
    ensures
        spec_take_front(ahead, remaining).take(n as int) == ahead.take(n as int),
{
    assert(spec_take_front(ahead, remaining).take(n as int) =~= ahead.take(n as int));
}

/// A message of a WebSocket, by what a reader does with it.
pub enum WsMessage {
    Binary(Vec<u8>),
    Close,
    /// Text, ping, pong and the like, which the stream skips.
    Other,
}

/// What a read of a WebSocket stream does after a message arrived.
#[derive(Clone, Copy, Debug, PartialEq, Eq, Structural)]
pub enum WsNext {
    /// The stream ended: answer the read with nothing.
    Eof,
    /// Wait for the next message.
    Skip,
    /// Serve the read from the buffer.
    Data,
}

/// A byte stream over the binary messages of a WebSocket.
pub struct WebSocketStream<S> {
    pub client: S,
    read: Vec<u8>,
    wrote: usize,
}

impl<S> WebSocketStream<S> {
    /// The bytes of binary messages not read yet.
    pub closed spec fn spec_read(self) -> Seq<u8> {
        self.read@
    }

    /// The length of the write under way, 0 when none is.
    pub closed spec fn spec_wrote(self) -> usize {
        self.wrote
    }

    pub fn new(client: S) -> (r: WebSocketStream<S>)
        ensures
            r.spec_read() == Seq::<u8>::empty(),
            r.spec_wrote() == 0,
    {
        WebSocketStream { client, read: Vec::new(), wrote: 0 }
    }

    /// Whether a read must wait for a message first: nothing is buffered.
    pub fn needs_message(&self) -> (r: bool)
        ensures
            r == (self.spec_read().len() == 0),
    {
        self.read.len() == 0
    }

    /// Takes the next message, `None` when the socket has no more: binary data is
    /// buffered, a close or the end ends the stream, anything else is skipped.
    pub fn on_message(&mut self, msg: Option<WsMessage>) -> (r: WsNext)
        ensures
            match msg {
                Some(WsMessage::Binary(b)) => r == WsNext::Data && final(self).spec_read() == old(
                    self,
                ).spec_read() + b@,
                Some(WsMessage::Other) => r == WsNext::Skip && final(self).spec_read() == old(
                    self,
                ).spec_read(),
                _ => r == WsNext::Eof && final(self).spec_read() == old(self).spec_read(),
            },
            final(self).spec_wrote() == old(self).spec_wrote(),
    {
        match msg {
            Some(WsMessage::Binary(b)) => {
                extend_bytes(&mut self.read, b.as_slice());
                WsNext::Data
            },
            Some(WsMessage::Other) => WsNext::Skip,
            _ => WsNext::Eof,
        }
    }

    /// Serves a read of at most `remaining` bytes from the buffer.
    pub fn take_read(&mut self, remaining: usize) -> (r: Vec<u8>)
        ensures
            r@ == spec_take_front(old(self).spec_read(), remaining as nat),
            old(self).spec_read() == r@ + final(self).spec_read(),
            final(self).spec_wrote() == old(self).spec_wrote(),
    {
        take_front(&mut self.read, remaining)
    }

    /// Whether a write must send its bytes as a message first: no write is under way.
    pub fn needs_send(&self) -> (r: bool)
        ensures
            r == (self.spec_wrote() == 0),
    {
        self.wrote == 0
    }

    /// A message of `len` bytes was sent for the write under way.
    pub fn on_sent(&mut self, len: usize)
        ensures
            final(self).spec_wrote() == len,
            final(self).spec_read() == old(self).spec_read(),
    {
        self.wrote = len;
    }

    /// The message was flushed: the write answers its length and none is under way.
    pub fn on_flushed(&mut self) -> (r: usize)
        ensures
            r == old(self).spec_wrote(),
            final(self).spec_wrote() == 0,
            final(self).spec_read() == old(self).spec_read(),
    {
        let r = self.wrote;
        self.wrote = 0;
        r
    }
}

} // verus!
