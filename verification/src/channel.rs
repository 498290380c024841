//! Point-to-point message channels.
//!
//! The queues themselves are crossbeam's unbounded channels. What a receive
//! hands back depends on what other threads have sent, so the contracts here
//! say what holds of every outcome. Each end carries a ghost model that only
//! the calls into crossbeam set: the channel it belongs to (the two ends made
//! by one call of `unbounded` share it), every message handed to a send, the
//! messages that were queued, and what each receive found.
pub use crossbeam_channel::{unbounded, Receiver, Sender};
use vstd::prelude::*;

verus! {

/// crossbeam's sending end, carried through as an opaque value.
#[verifier::external_type_specification]
#[verifier::external_body]
#[verifier::reject_recursive_types(T)]
pub struct ExCrossbeamSender<T>(crossbeam_channel::Sender<T>);

/// crossbeam's receiving end, carried through as an opaque value.
#[verifier::external_type_specification]
#[verifier::external_body]
#[verifier::reject_recursive_types(T)]
pub struct ExCrossbeamReceiver<T>(crossbeam_channel::Receiver<T>);

/// crossbeam's error of a blocking receive, carried through as an opaque
/// value.
#[verifier::external_type_specification]
#[verifier::external_body]
pub struct ExCrossbeamRecvError(crossbeam_channel::RecvError);

/// A message could not be sent because the other end is gone; the message
/// is handed back.
#[derive(Debug)]
pub struct SendError<T>(pub T);

/// Why a non-blocking receive produced no message.
#[derive(PartialEq, Eq, Structural, Debug, Clone, Copy)]
pub enum TryRecvError {
    /// Nothing is waiting right now.
    Empty,
    /// Nothing is waiting and every sender is gone.
    Closed,
}

/// The sending end of a channel with its model: which channel it belongs to,
/// every message handed to `send`, and the messages that were queued.
#[verifier::reject_recursive_types(S)]
pub struct SendEnd<S> {
    s: Sender<S>,
    chan: Ghost<int>,
    attempts: Ghost<Seq<S>>,
    sent: Ghost<Seq<S>>,
}

/// The receiving end of a channel with its model: which channel it belongs
/// to, what each receive found, and whether each receive waited for a
/// message.
#[verifier::reject_recursive_types(R)]
pub struct RecvEnd<R> {
    r: Receiver<R>,
    chan: Ghost<int>,
    receipts: Ghost<Seq<Option<R>>>,
    waits: Ghost<Seq<bool>>,
}

/// `crossbeam_channel::unbounded`: a fresh unbounded channel. The model says
/// that its two ends belong to one channel and have sent and received
/// nothing; the channel is not claimed to differ from other channels.
#[verifier::external_body]
pub(crate) fn channel_new<T>() -> (ends: (SendEnd<T>, RecvEnd<T>))
    ensures
        ends.0.chan() == ends.1.chan(),
        ends.0.attempts() == Seq::<T>::empty(),
        ends.0.sent() == Seq::<T>::empty(),
        ends.1.receipts() == Seq::<Option<T>>::empty(),
        ends.1.waits() == Seq::<bool>::empty(),
{
    let (s, r) = crossbeam_channel::unbounded();
    let chan: Ghost<int> = Ghost(vstd::pervasive::arbitrary());
    (
        SendEnd { s, chan, attempts: Ghost(Seq::empty()), sent: Ghost(Seq::empty()) },
        RecvEnd { r, chan, receipts: Ghost(Seq::empty()), waits: Ghost(Seq::empty()) },
    )
}

/// `crossbeam_channel::Sender::send` on the end `e`: hands `msg` to crossbeam,
/// which queues it or, when the channel is disconnected, returns the very
/// message inside its `SendError`. The model records `msg` as handed over in
/// either case, and as queued when the send succeeded. Whether it succeeds
/// depends on the receiving end and is not claimed.
#[verifier::external_body]
pub(crate) fn end_send<S>(e: &mut SendEnd<S>, msg: S) -> (res: Result<(), S>)
    ensures
        final(e).chan() == old(e).chan(),
        final(e).attempts() == old(e).attempts().push(msg),
        res is Ok ==> final(e).sent() == old(e).sent().push(msg),
        res matches Err(back) ==> back == msg && final(e).sent() == old(e).sent(),
{
    match e.s.send(msg) {
        Ok(()) => Ok(()),
        Err(x) => Err(x.0),
    }
}

/// `crossbeam_channel::Sender::clone` on the end `e`: another sending end
/// into the same channel, which has sent nothing yet. Nothing else is
/// claimed.
#[verifier::external_body]
pub(crate) fn end_clone<S>(e: &SendEnd<S>) -> (c: SendEnd<S>)
    ensures
        c.chan() == e.chan(),
        c.attempts() == Seq::<S>::empty(),
        c.sent() == Seq::<S>::empty(),
{
    SendEnd { s: e.s.clone(), chan: e.chan, attempts: Ghost(Seq::empty()), sent: Ghost(Seq::empty()) }
}

/// `crossbeam_channel::Receiver::recv` on the end `e`: blocks until a message
/// arrives or every sender is gone. The model records what it got, and that
/// this receive waited. Which message comes back depends on other threads
/// and is not claimed.
#[verifier::external_body]
pub(crate) fn end_recv<R>(e: &mut RecvEnd<R>) -> (res: Result<R, crossbeam_channel::RecvError>)
    ensures
        final(e).chan() == old(e).chan(),
        final(e).waits() == old(e).waits().push(true),
        res matches Ok(m) ==> final(e).receipts() == old(e).receipts().push(Some(m)),
        res is Err ==> final(e).receipts() == old(e).receipts().push(None),
{
    e.r.recv()
}

/// `crossbeam_channel::Receiver::try_recv` on the end `e`: takes a message if
/// one is waiting. crossbeam's `Empty` becomes `TryRecvError::Empty` and its
/// `Disconnected` becomes `TryRecvError::Closed`. It returns at once, without
/// waiting for a message. The model records what it got, and that this
/// receive did not wait. Which outcome occurs depends on other threads and is
/// not claimed.
#[verifier::external_body]
pub(crate) fn end_try_recv<R>(e: &mut RecvEnd<R>) -> (res: Result<R, TryRecvError>)
    ensures
        final(e).chan() == old(e).chan(),
        final(e).waits() == old(e).waits().push(false),
        res matches Ok(m) ==> final(e).receipts() == old(e).receipts().push(Some(m)),
        res is Err ==> final(e).receipts() == old(e).receipts().push(None),
{
    match e.r.try_recv() {
        Ok(v) => Ok(v),
        Err(crossbeam_channel::TryRecvError::Empty) => Err(TryRecvError::Empty),
        Err(crossbeam_channel::TryRecvError::Disconnected) => Err(TryRecvError::Closed),
    }
}

impl<S> SendEnd<S> {
    /// The channel this end sends into.
    pub closed spec fn chan(&self) -> int {
        self.chan@
    }

    /// Every message handed to `send` through this end, oldest first.
    pub closed spec fn attempts(&self) -> Seq<S> {
        self.attempts@
    }

    /// The messages that `send` queued through this end, oldest first.
    pub closed spec fn sent(&self) -> Seq<S> {
        self.sent@
    }

    /// Hands `m` to the channel. On success it is queued; on failure the
    /// message comes back inside the error, unchanged. Either way it is
    /// recorded as handed over.
    pub fn send(&mut self, m: S) -> (res: Result<(), SendError<S>>)
        ensures
            final(self).chan() == old(self).chan(),
            final(self).attempts() == old(self).attempts().push(m),
            res is Ok ==> final(self).sent() == old(self).sent().push(m),
            res matches Err(e) ==> e.0 == m && final(self).sent() == old(self).sent(),
    {
        match end_send(self, m) {
            Ok(()) => Ok(()),
            Err(back) => Err(SendError(back)),
        }
    }
}

impl<R> RecvEnd<R> {
    /// The channel this end receives from.
    pub closed spec fn chan(&self) -> int {
        self.chan@
    }

    /// What each receive on this end found, oldest first: the message, or
    /// `None` when there was none to take.
    pub closed spec fn receipts(&self) -> Seq<Option<R>> {
        self.receipts@
    }

    /// Whether each receive on this end waited for a message (`true` for
    /// `recv`) or returned at once (`false` for `try_recv`), oldest first.
    pub closed spec fn waits(&self) -> Seq<bool> {
        self.waits@
    }

    /// Waits for the next message; fails only when every sender is gone and
    /// nothing is left to read. What it got is recorded, and that it waited.
    pub fn recv(&mut self) -> (res: Result<R, crossbeam_channel::RecvError>)
        ensures
            final(self).chan() == old(self).chan(),
            final(self).waits() == old(self).waits().push(true),
            res matches Ok(m) ==> final(self).receipts() == old(self).receipts().push(Some(m)),
            res is Err ==> final(self).receipts() == old(self).receipts().push(None),
    {
        end_recv(self)
    }

    /// Takes the next message if one is waiting, without waiting for one.
    /// What it got is recorded, and that it did not wait.
    pub fn try_recv(&mut self) -> (res: Result<R, TryRecvError>)
        ensures
            final(self).chan() == old(self).chan(),
            final(self).waits() == old(self).waits().push(false),
            res matches Ok(m) ==> final(self).receipts() == old(self).receipts().push(Some(m)),
            res is Err ==> final(self).receipts() == old(self).receipts().push(None),
    {
        end_try_recv(self)
    }

    /// The crossbeam end, the channel and the record, taken apart.
    pub(crate) fn into_parts(self) -> (parts: (Receiver<R>, Ghost<int>, Ghost<Seq<Option<R>>>))
        ensures
            parts.1@ == self.chan(),
            parts.2@ == self.receipts(),
    {
        (self.r, self.chan, self.receipts)
    }
}

/// One end of a two-way connection: it sends `S` and receives `R`.
#[verifier::reject_recursive_types(S)]
#[verifier::reject_recursive_types(R)]
pub struct DuplexEnd<S, R = S> {
    out: SendEnd<S>,
    inp: RecvEnd<R>,
}

impl<S, R> DuplexEnd<S, R> {
    /// The sending side of the end, with its model.
    pub closed spec fn sending(&self) -> SendEnd<S> {
        self.out
    }

    /// The receiving side of the end, with its model.
    pub closed spec fn receiving(&self) -> RecvEnd<R> {
        self.inp
    }

    /// The messages this end has queued, oldest first.
    pub open spec fn sent(&self) -> Seq<S> {
        self.sending().sent()
    }

    /// Every message handed to this end's `send`, oldest first.
    pub open spec fn attempts(&self) -> Seq<S> {
        self.sending().attempts()
    }

    /// What each receive on this end found, oldest first.
    pub open spec fn receipts(&self) -> Seq<Option<R>> {
        self.receiving().receipts()
    }

    /// This end sends into and receives from the same channels as `other`.
    pub open spec fn same_channels(&self, other: Self) -> bool {
        &&& self.sending().chan() == other.sending().chan()
        &&& self.receiving().chan() == other.receiving().chan()
    }

    /// Sends a message to the other end. It is recorded as handed over; on
    /// success it is queued, and on failure it comes back inside the error,
    /// unchanged.
    pub fn send(&mut self, m: S) -> (res: Result<(), SendError<S>>)
        ensures
            final(self).same_channels(*old(self)),
            final(self).receiving() == old(self).receiving(),
            final(self).attempts() == old(self).attempts().push(m),
            res is Ok ==> final(self).sent() == old(self).sent().push(m),
            res matches Err(e) ==> e.0 == m && final(self).sent() == old(self).sent(),
    {
        self.out.send(m)
    }

    /// Waits for the next message from the other end; fails only when the
    /// other end is gone and nothing is left to read. What it got is
    /// recorded, and that it waited.
    pub fn recv(&mut self) -> (res: Result<R, crossbeam_channel::RecvError>)
        ensures
            final(self).same_channels(*old(self)),
            final(self).sending() == old(self).sending(),
            final(self).receiving().waits() == old(self).receiving().waits().push(true),
            res matches Ok(m) ==> final(self).receipts() == old(self).receipts().push(Some(m)),
            res is Err ==> final(self).receipts() == old(self).receipts().push(None),
    {
        self.inp.recv()
    }

    /// Takes the next message from the other end if one is waiting, without
    /// waiting for one. What it got is recorded, and that it did not wait.
    pub fn try_recv(&mut self) -> (res: Result<R, TryRecvError>)
        ensures
            final(self).same_channels(*old(self)),
            final(self).sending() == old(self).sending(),
            final(self).receiving().waits() == old(self).receiving().waits().push(false),
            res matches Ok(m) ==> final(self).receipts() == old(self).receipts().push(Some(m)),
            res is Err ==> final(self).receipts() == old(self).receipts().push(None),
    {
        self.inp.try_recv()
    }

    /// The sending side and the receiving side, taken apart.
    pub fn into_parts(self) -> (parts: (SendEnd<S>, RecvEnd<R>))
        ensures
            parts.0 == self.sending(),
            parts.1 == self.receiving(),
    {
        (self.out, self.inp)
    }
}

/// `a` and `b` are the two ends of one connection: what either sends goes
/// into the channel the other receives from.
pub open spec fn paired<S, R>(a: DuplexEnd<S, R>, b: DuplexEnd<R, S>) -> bool {
    &&& a.sending().chan() == b.receiving().chan()
    &&& b.sending().chan() == a.receiving().chan()
}

/// Makes a connected pair of ends: what the first sends the second receives,
/// and the other way round. Neither has sent or received anything yet.
pub fn duplex<T, U>() -> (ends: (DuplexEnd<T, U>, DuplexEnd<U, T>))
    ensures
        paired(ends.0, ends.1),
        ends.0.attempts() == Seq::<T>::empty(),
        ends.1.attempts() == Seq::<U>::empty(),
        ends.0.sent() == Seq::<T>::empty(),
        ends.1.sent() == Seq::<U>::empty(),
        ends.0.receipts() == Seq::<Option<U>>::empty(),
        ends.1.receipts() == Seq::<Option<T>>::empty(),
{
    let (s1, r1) = channel_new();
    let (s2, r2) = channel_new();
    (DuplexEnd { out: s1, inp: r2 }, DuplexEnd { out: s2, inp: r1 })
}

/// How a non-blocking receive on an asynchronous channel ended, decided from
/// what the race between the receive and a one-nanosecond timer produced:
/// `None` when the timer won, `Some(None)` when the channel was closed and
/// `Some(Some(x))` when `x` arrived in time.
pub fn try_recv_outcome<T>(raced: Option<Option<T>>) -> (res: Result<T, TryRecvError>)
    ensures
        raced is None ==> res == Err::<T, TryRecvError>(TryRecvError::Empty),
        raced == Some(None::<T>) ==> res == Err::<T, TryRecvError>(TryRecvError::Closed),
        raced matches Some(Some(x)) ==> res == Ok::<T, TryRecvError>(x),
{
    match raced {
        None => Err(TryRecvError::Empty),
        Some(None) => Err(TryRecvError::Closed),
        Some(Some(x)) => Ok(x),
    }
}

} // verus!
