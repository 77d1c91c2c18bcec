use vstd::prelude::*;

use crate::descriptor::BufferDescriptor;

verus! {

/// The handoff channel: an unbounded first-in first-out queue of imported
/// buffers. It holds both ends of a flume channel and hands out no clone of
/// either, so what it holds changes only through its own methods.
#[verifier::external_body]
pub struct DmabufImported {
    tx: flume::Sender<BufferDescriptor>,
    rx: flume::Receiver<BufferDescriptor>,
}

/// The buffers that wait in the channel, oldest first.
pub uninterp spec fn queued(c: DmabufImported) -> Seq<BufferDescriptor>;

/// What the channel holds after each of `xs` is sent, in turn, to a channel
/// that holds `q` (as `send` states it).
pub open spec fn send_all(q: Seq<BufferDescriptor>, xs: Seq<BufferDescriptor>) -> Seq<BufferDescriptor>
    decreases xs.len(),
{
    if xs.len() == 0 {
        q
    } else {
        send_all(q.push(xs[0]), xs.drop_first())
    }
}

/// The buffers that `n` calls of `try_receive` hand out from a channel that
/// holds `q`, and what the channel holds afterwards.
pub open spec fn receive_n(q: Seq<BufferDescriptor>, n: nat) -> (Seq<BufferDescriptor>, Seq<BufferDescriptor>)
    decreases n,
{
    if n == 0 || q.len() == 0 {
        (Seq::empty(), q)
    } else {
        let (got, rest) = receive_n(q.drop_first(), (n - 1) as nat);
        (seq![q[0]] + got, rest)
    }
}

proof fn lemma_send_all_appends(q: Seq<BufferDescriptor>, xs: Seq<BufferDescriptor>)
    ensures
        send_all(q, xs) == q + xs,
    decreases xs.len(),
{
    if xs.len() > 0 {
        lemma_send_all_appends(q.push(xs[0]), xs.drop_first());
        assert(q.push(xs[0]) + xs.drop_first() =~= q + xs);
    } else {
        assert(q + xs =~= q);
    }
}

proof fn lemma_receive_all(q: Seq<BufferDescriptor>)
    ensures
        receive_n(q, q.len()) == (q, Seq::<BufferDescriptor>::empty()),
    decreases q.len(),
{
    if q.len() > 0 {
        lemma_receive_all(q.drop_first());
        assert(seq![q[0]] + q.drop_first() =~= q);
    } else {
        assert(q =~= Seq::<BufferDescriptor>::empty());
    }
}

/// Receiving loses and repeats nothing: the buffers handed out by `n`
/// receives are the oldest ones, in order, and with what stays in the
/// channel they make up exactly what it held.
pub proof fn lemma_receive_splits(q: Seq<BufferDescriptor>, n: nat)
    ensures
        receive_n(q, n).0 + receive_n(q, n).1 == q,
        receive_n(q, n).0 == q.take(if n <= q.len() { n as int } else { q.len() as int }),
    decreases n,
{
    if n == 0 || q.len() == 0 {
        assert(Seq::<BufferDescriptor>::empty() + q =~= q);
        assert(q.take(0) =~= Seq::<BufferDescriptor>::empty());
    } else {
        let t = q.drop_first();
        lemma_receive_splits(t, (n - 1) as nat);
        let (got, rest) = receive_n(t, (n - 1) as nat);
        assert(seq![q[0]] + got + rest =~= seq![q[0]] + (got + rest));
        assert(seq![q[0]] + t =~= q);
        let m: int = if n <= q.len() { n as int } else { q.len() as int };
        assert(seq![q[0]] + t.take(m - 1) =~= q.take(m));
    }
}

/// First in, first out, each once: when buffers are sent one after another to
/// an empty channel, receiving as many times hands out exactly those buffers,
/// in the order they were sent, and leaves the channel empty.
pub proof fn lemma_fifo_delivery(sent: Seq<BufferDescriptor>)
    ensures
        receive_n(send_all(Seq::empty(), sent), sent.len()) == (sent, Seq::<BufferDescriptor>::empty()),
{
    lemma_send_all_appends(Seq::empty(), sent);
    assert(Seq::<BufferDescriptor>::empty() + sent =~= sent);
    lemma_receive_all(sent);
}

impl DmabufImported {
    /// Relies on flume::unbounded: a fresh channel holds nothing.
    #[verifier::external_body]
    fn open_unbounded() -> (r: Self)
        ensures
            queued(r) == Seq::<BufferDescriptor>::empty(),
    {
        let (tx, rx) = flume::unbounded();
        DmabufImported { tx, rx }
    }

    /// Relies on flume::Sender::send: on an unbounded channel it does not
    /// block and appends the value; it fails only once every receiver is
    /// gone, and this struct holds its receiver for its whole life.
    #[verifier::external_body]
    fn enqueue(&mut self, d: BufferDescriptor) -> (r: Result<(), BufferDescriptor>)
        ensures
            r is Ok,
            queued(*final(self)) == queued(*old(self)).push(d),
    {
        self.tx.send(d).map_err(|e| e.into_inner())
    }

    /// Relies on flume::Receiver::try_recv: it takes the oldest value, and
    /// fails when the channel is empty (a sender is held, so it is never
    /// disconnected).
    #[verifier::external_body]
    fn dequeue(&mut self) -> (r: Option<BufferDescriptor>)
        ensures
            queued(*old(self)).len() == 0 ==> r is None && queued(*final(self)) == queued(*old(self)),
            queued(*old(self)).len() > 0 ==> r == Some(queued(*old(self))[0])
                && queued(*final(self)) == queued(*old(self)).drop_first(),
    {
        self.rx.try_recv().ok()
    }

    /// A new, empty channel.
    pub fn new() -> (r: Self)
        ensures
            queued(r).len() == 0,
    {
        Self::open_unbounded()
    }

    /// Puts a buffer at the back of the channel; never blocks and never
    /// drops. The channel holds its own receiver, so it cannot be closed.
    pub fn send(&mut self, d: BufferDescriptor) -> (r: Result<(), BufferDescriptor>)
        ensures
            r is Ok,
            queued(*final(self)) == queued(*old(self)).push(d),
    {
        self.enqueue(d)
    }

    /// Takes the oldest buffer, or nothing when the channel is empty.
    pub fn try_receive(&mut self) -> (r: Option<BufferDescriptor>)
        ensures
            queued(*old(self)).len() == 0 ==> r is None && queued(*final(self)) == queued(*old(self)),
            queued(*old(self)).len() > 0 ==> r == Some(queued(*old(self))[0])
                && queued(*final(self)) == queued(*old(self)).drop_first(),
    {
        self.dequeue()
    }

    /// Takes every buffer that waits, oldest first, and leaves the channel empty.
    pub fn drain(&mut self) -> (r: Vec<BufferDescriptor>)
        ensures
            r@ == queued(*old(self)),
            queued(*final(self)).len() == 0,
    {
        let mut out: Vec<BufferDescriptor> = Vec::new();
        loop
            invariant
                out@ + queued(*self) == queued(*old(self)),
            decreases queued(*self).len(),
        {
            let ghost before = queued(*self);
            match self.dequeue() {
                Some(d) => {
                    out.push(d);
                    assert(out@ + queued(*self) =~= queued(*old(self))) by {
                        assert(before =~= seq![d] + before.drop_first());
                    }
                },
                None => {
                    assert(out@ =~= queued(*old(self)));
                    return out;
                },
            }
        }
    }
}

} // verus!
