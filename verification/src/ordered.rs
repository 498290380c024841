//! The counter server in its ordered form: every client sends into one shared
//! queue, tagged with the id of its connection, so the server sees all
//! requests in the order they were sent. Each client has a reply channel of
//! its own, kept in an `IdMap` under the client's id. The requests are those
//! of the unordered server.
use crate::channel::{channel_new, end_clone, end_try_recv, RecvEnd, SendEnd};
use crate::example::{
    counter_after, decimal_text, lemma_wrapping_add_is_wrapped_sum, one_more, wrapped_sum,
    CallError, Request, ServeError,
};
use vstd::string::StringExecFns;
use crate::id_map::IdMap;
use crossbeam_channel::Receiver;
use vstd::prelude::*;

verus! {

/// What the server answers.
pub enum Reply {
    /// The client of a newly opened connection.
    NewConnection(OrderedExampleClient),
    /// The counter after the addition.
    Increment(usize),
    /// No connection could be opened: the server has no id left to give.
    Refused,
}

/// What one step of `tick` did.
#[derive(PartialEq, Eq, Structural, Debug, Clone, Copy)]
pub enum TickStep {
    /// No request was waiting.
    Idle,
    /// A request was served and its connection stays open.
    Served,
    /// A request closed its connection.
    Closed,
    /// A request was handled but its reply could not be delivered.
    Failed(ServeError),
}

/// The ordered server: the counter, the reply channels of its clients by id,
/// and both ends of the shared request queue.
pub struct OrderedExampleServer {
    connections: IdMap<SendEnd<Reply>>,
    receiver: RecvEnd<(Request, usize)>,
    sender: SendEnd<(Request, usize)>,
    a: usize,
}

/// A client that has not sent or received anything.
pub open spec fn fresh_ordered_client(c: OrderedExampleClient) -> bool {
    &&& c.attempts() == Seq::<(Request, usize)>::empty()
    &&& c.sent() == Seq::<(Request, usize)>::empty()
    &&& c.received() == Seq::<Option<Reply>>::empty()
}

/// The client `c` is connected to `server` under id `id`: it carries that
/// id, sends into the server's queue, and receives from the reply channel
/// the server keeps under `id`.
pub open spec fn ordered_connected(c: OrderedExampleClient, server: OrderedExampleServer, id: usize) -> bool {
    &&& c.id() == id
    &&& server.clients().contains_key(id)
    &&& c.sending().chan() == server.queue_chan()
    &&& c.reply_chan() == server.clients()[id].chan()
}

/// Whether `reply` answers `req` for the server `post` that it left behind:
/// an increment is answered with the counter; a request for a connection
/// with a fresh client connected under `new_id` when a connection `could_open`,
/// and with `Refused` otherwise.
pub open spec fn ordered_answers(
    req: Request,
    reply: Reply,
    post: OrderedExampleServer,
    new_id: usize,
    could_open: bool,
) -> bool {
    match req {
        Request::Increment(_) => reply == Reply::Increment(post.counter()),
        Request::NewConnection => if could_open {
            reply matches Reply::NewConnection(c) && ordered_connected(c, post, new_id)
                && fresh_ordered_client(c)
        } else {
            reply is Refused
        },
        Request::DropConnection => false,
    }
}

/// Serving `req`, tagged with connection id `id`, took the server from `pre`
/// to `post` with result `res`: the counter moved as the request says and
/// the queue was left alone; a request to close removed connection `id`; a
/// request for a connection opened a fresh one under `next_connection_id`
/// when an id was left; the answer to any other request was handed to
/// connection `id` alone, where it was queued or else could not be
/// delivered, and the call failed when `id` is not open.
pub open spec fn served_on(
    pre: OrderedExampleServer,
    post: OrderedExampleServer,
    req: Request,
    id: usize,
    res: Result<bool, ServeError>,
) -> bool {
    let before = pre.clients();
    let after = post.clients();
    let new_id = pre.next_connection_id();
    &&& post.counter() == counter_after(pre.counter(), req)
    &&& post.queue() == pre.queue()
    &&& post.queue_chan() == pre.queue_chan()
    &&& req is NewConnection ==> (if pre.can_open() {
        &&& after.dom() == before.dom().insert(new_id)
        &&& !before.contains_key(new_id)
    } else {
        after.dom() == before.dom()
    })
    &&& req is Increment ==> after.dom() == before.dom()
    &&& if req is DropConnection {
        &&& res == Ok::<bool, ServeError>(true)
        &&& after == before.remove(id)
    } else if !after.contains_key(id) {
        &&& res == Err::<bool, ServeError>(ServeError::UnknownConnection(id))
        &&& forall|k: usize| #[trigger] before.contains_key(k) ==> after[k] == before[k]
    } else {
        // the connection the answer goes to may have been opened by this
        // very request, in which case it had sent nothing
        let prior_attempts = if before.contains_key(id) {
            before[id].attempts()
        } else {
            Seq::<Reply>::empty()
        };
        let prior_sent = if before.contains_key(id) {
            before[id].sent()
        } else {
            Seq::<Reply>::empty()
        };
        let answer = after[id].attempts().last();
        &&& forall|k: usize|
            k != id && #[trigger] before.contains_key(k) ==> after[k] == before[k]
        &&& before.contains_key(id) ==> after[id].chan() == before[id].chan()
        &&& one_more(prior_attempts, after[id].attempts())
        &&& ordered_answers(req, answer, post, new_id, pre.can_open())
        &&& {
            ||| res == Ok::<bool, ServeError>(false) && after[id].sent() == prior_sent.push(answer)
            ||| res == Err::<bool, ServeError>(ServeError::ReplyUndelivered(id)) && after[id].sent()
                == prior_sent
        }
    }
}

/// The result of `serve` that a step of `tick` reports.
pub open spec fn step_result(step: TickStep) -> Result<bool, ServeError> {
    match step {
        TickStep::Closed => Ok(true),
        TickStep::Failed(e) => Err(e),
        _ => Ok(false),
    }
}

impl OrderedExampleServer {
    /// The counter.
    pub closed spec fn counter(&self) -> usize {
        self.a
    }

    /// The reply channels of the open connections, by connection id, each
    /// with its model.
    pub closed spec fn clients(&self) -> Map<usize, SendEnd<Reply>> {
        self.connections@
    }

    /// The receiving end of the request queue, with its model.
    pub closed spec fn queue(&self) -> RecvEnd<(Request, usize)> {
        self.receiver
    }

    /// The channel of the request queue.
    pub open spec fn queue_chan(&self) -> int {
        self.queue().chan()
    }

    /// What each look into the request queue found, oldest first: a request
    /// with the id it came tagged with, or `None` when the queue was empty.
    pub open spec fn taken(&self) -> Seq<Option<(Request, usize)>> {
        self.queue().receipts()
    }

    /// The id that the next connection gets.
    pub closed spec fn next_connection_id(&self) -> usize {
        self.connections.id_for_next_add()
    }

    /// The map that keeps the reply channels under their connection ids.
    pub closed spec fn id_map(&self) -> IdMap<SendEnd<Reply>> {
        self.connections
    }

    /// Whether one more connection can be opened.
    pub closed spec fn can_open(&self) -> bool {
        self.connections.holes() != Set::<usize>::empty() || self.connections.next_id()
            < usize::MAX
    }

    /// The bookkeeping of connection ids is consistent, and the server's own
    /// sending end (which clients get copies of) goes into its queue.
    pub closed spec fn wf(&self) -> bool {
        &&& self.connections.wf()
        &&& self.sender.chan() == self.receiver.chan()
    }

    /// A server with counter `a` and no connection.
    pub fn new(a: usize) -> (s: Self)
        ensures
            s.wf(),
            s.counter() == a,
            s.clients() == Map::<usize, SendEnd<Reply>>::empty(),
            s.next_connection_id() == 0,
            s.taken() == Seq::<Option<(Request, usize)>>::empty(),
    {
        let (sender, receiver) = channel_new();
        Self { connections: IdMap::new(), receiver, sender, a }
    }

    /// Opens a new connection under a fresh id and returns its client,
    /// connected to the server under that id.
    pub fn connection(&mut self) -> (c: OrderedExampleClient)
        requires
            old(self).wf(),
            old(self).can_open(),
        ensures
            final(self).wf(),
            ordered_connected(c, *final(self), old(self).next_connection_id()),
            fresh_ordered_client(c),
            final(self).counter() == old(self).counter(),
            final(self).queue() == old(self).queue(),
            final(self).clients()[old(self).next_connection_id()].attempts() == Seq::<
                Reply,
            >::empty(),
            final(self).clients()[old(self).next_connection_id()].sent() == Seq::<Reply>::empty(),
            !old(self).clients().contains_key(old(self).next_connection_id()),
            final(self).clients().dom() == old(self).clients().dom().insert(
                old(self).next_connection_id(),
            ),
            forall|k: usize| #[trigger]
                old(self).clients().contains_key(k) ==> final(self).clients()[k] == old(
                    self,
                ).clients()[k],
    {
        let (tx, rx) = channel_new();
        let id = self.connections.add(tx);
        OrderedExampleClient::new(rx, end_clone(&self.sender), id)
    }

    /// Decides the answer to one request: the reply to send, if any, and
    /// whether the connection it came on is to be closed. A request for a
    /// connection is refused when no id is left. An increment wraps around on
    /// overflow, as `usize` addition does in a release build; it never
    /// panics.
    pub fn handle(&mut self, req: Request) -> (res: (Option<Reply>, bool))
        requires
            old(self).wf(),
        ensures
            final(self).wf(),
            final(self).counter() == counter_after(old(self).counter(), req),
            final(self).queue() == old(self).queue(),
            forall|k: usize| #[trigger]
                old(self).clients().contains_key(k) ==> final(self).clients().contains_key(k)
                    && final(self).clients()[k] == old(self).clients()[k],
            match req {
                Request::NewConnection => {
                    &&& !res.1
                    &&& res.0 matches Some(r) && ordered_answers(
                        req,
                        r,
                        *final(self),
                        old(self).next_connection_id(),
                        old(self).can_open(),
                    )
                    &&& old(self).can_open() ==> {
                        &&& final(self).clients().dom() == old(self).clients().dom().insert(
                            old(self).next_connection_id(),
                        )
                        &&& !old(self).clients().contains_key(old(self).next_connection_id())
                        &&& final(self).clients()[old(self).next_connection_id()].attempts()
                            == Seq::<Reply>::empty()
                        &&& final(self).clients()[old(self).next_connection_id()].sent() == Seq::<
                            Reply,
                        >::empty()
                    }
                    &&& !old(self).can_open() ==> final(self).clients() == old(self).clients()
                },
                Request::DropConnection => {
                    &&& res.0 is None
                    &&& res.1
                    &&& final(self).clients() == old(self).clients()
                },
                Request::Increment(_) => {
                    &&& res.0 == Some(Reply::Increment(final(self).counter()))
                    &&& !res.1
                    &&& final(self).clients() == old(self).clients()
                },
            },
    {
        match req {
            Request::NewConnection => {
                if self.connections.can_add() {
                    (Some(Reply::NewConnection(self.connection())), false)
                } else {
                    (Some(Reply::Refused), false)
                }
            },
            Request::DropConnection => (None, true),
            Request::Increment(b) => {
                let sum = self.a.wrapping_add(b);
                proof {
                    lemma_wrapping_add_is_wrapped_sum(self.a, b);
                }
                self.a = sum;
                (Some(Reply::Increment(self.a)), false)
            },
        }
    }

    /// Serves one request that came tagged with connection id `id`: handles
    /// it, hands the reply to that connection's channel, and closes the
    /// connection when the request asks so. Returns whether it closed the
    /// connection.
    pub fn serve(&mut self, req: Request, id: usize) -> (res: Result<bool, ServeError>)
        requires
            old(self).wf(),
        ensures
            final(self).wf(),
            served_on(*old(self), *final(self), req, id, res),
    {
        let (res, remove) = self.handle(req);
        if let Some(r) = res {
            if !self.connections.contains(id) {
                return Err(ServeError::UnknownConnection(id));
            }
            let ghost reply = r;
            let ghost mid = self.clients();
            match self.connections.index_mut(id).send(r) {
                Ok(()) => {
                    proof {
                        assert(mid[id].attempts().push(reply).drop_last() =~= mid[id].attempts());
                        assert(self.clients().dom() =~= mid.dom());
                    }
                },
                Err(_) => {
                    proof {
                        assert(mid[id].attempts().push(reply).drop_last() =~= mid[id].attempts());
                        assert(self.clients().dom() =~= mid.dom());
                    }
                    return Err(ServeError::ReplyUndelivered(id));
                },
            }
        }
        if remove {
            self.connections.remove(id);
            return Ok(true);
        }
        Ok(false)
    }

    /// One step of `tick`: looks into the request queue once and serves the
    /// request found there, if any.
    pub fn tick_step(&mut self) -> (step: TickStep)
        requires
            old(self).wf(),
        ensures
            final(self).wf(),
            final(self).queue_chan() == old(self).queue_chan(),
            one_more(old(self).taken(), final(self).taken()),
            final(self).queue().waits() == old(self).queue().waits().push(false),
            step is Idle <==> final(self).taken().last() is None,
            step is Idle ==> final(self).counter() == old(self).counter(),
            step is Idle ==> final(self).clients() == old(self).clients(),
            final(self).taken().last() matches Some((req, id)) ==> exists|
                mid: OrderedExampleServer,
            | {
                &&& #[trigger] served_on(mid, *final(self), req, id, step_result(step))
                &&& mid.counter() == old(self).counter()
                &&& mid.clients() == old(self).clients()
                &&& mid.can_open() == old(self).can_open()
                &&& mid.next_connection_id() == old(self).next_connection_id()
            },
    {
        let ghost before = self.taken();
        let got = end_try_recv(&mut self.receiver);
        proof {
            assert(self.taken().drop_last() =~= before);
        }
        match got {
            Ok((req, id)) => {
                let r = self.serve(req, id);
                match r {
                    Ok(true) => TickStep::Closed,
                    Ok(false) => TickStep::Served,
                    Err(e) => TickStep::Failed(e),
                }
            },
            Err(_) => TickStep::Idle,
        }
    }
}

/// The crossbeam receiver of a client's replies, held as an opaque value.
///
/// A reply can carry a client and a client holds this receiver, so the type
/// of what it receives refers back to the type that holds it. The receiver's
/// model (its channel and what it received) is kept in the client, and only
/// `ordered_client_recv` reads the receiver.
#[verifier::external_body]
struct ReplyReceiver {
    r: Receiver<Reply>,
}

/// Wraps a receiver of replies. Nothing is claimed of the result.
#[verifier::external_body]
fn reply_receiver_from(r: Receiver<Reply>) -> ReplyReceiver {
    ReplyReceiver { r }
}

/// `crossbeam_channel::Receiver::recv` on the client's reply receiver: blocks
/// until a reply arrives or the server is gone. The client's model records
/// what it got; its id, sending side and reply channel stay as they were.
/// Which reply comes back depends on the server and is not claimed.
#[verifier::external_body]
fn ordered_client_recv(c: &mut OrderedExampleClient) -> (res: Result<Reply, crossbeam_channel::RecvError>)
    ensures
        final(c).id() == old(c).id(),
        final(c).sending() == old(c).sending(),
        final(c).reply_chan() == old(c).reply_chan(),
        res matches Ok(m) ==> final(c).received() == old(c).received().push(Some(m)),
        res is Err ==> final(c).received() == old(c).received().push(None),
{
    c.receiver.r.recv()
}

/// A client: the receiver of its replies with the model of that receiver, a
/// sending end into the server's queue, and its connection id.
pub struct OrderedExampleClient {
    receiver: ReplyReceiver,
    reply_chan: Ghost<int>,
    received: Ghost<Seq<Option<Reply>>>,
    sender: SendEnd<(Request, usize)>,
    id: usize,
}

/// The counter that an answer to an increment carries, or the error that an
/// answer of another kind means.
pub open spec fn ordered_increment_answer(reply: Reply) -> Result<usize, CallError> {
    match reply {
        Reply::Increment(x) => Ok(x),
        _ => Err(CallError::UnexpectedReply),
    }
}

/// The client that an answer to a request for a connection carries, or the
/// error that another answer means.
pub open spec fn ordered_connection_answer(reply: Reply) -> Result<OrderedExampleClient, CallError> {
    match reply {
        Reply::NewConnection(c) => Ok(c),
        Reply::Refused => Err(CallError::Refused),
        Reply::Increment(_) => Err(CallError::UnexpectedReply),
    }
}

/// What a call that waits for an increment's answer returns, from what its
/// receive got.
pub open spec fn ordered_increment_outcome(got: Option<Reply>) -> Result<usize, CallError> {
    match got {
        None => Err(CallError::Disconnected),
        Some(r) => ordered_increment_answer(r),
    }
}

/// What a call that waits for a new connection returns, from what its
/// receive got.
pub open spec fn ordered_connection_outcome(got: Option<Reply>) -> Result<OrderedExampleClient, CallError> {
    match got {
        None => Err(CallError::Disconnected),
        Some(r) => ordered_connection_answer(r),
    }
}

/// How `describe` renders a client with connection id `id`.
pub open spec fn client_text(id: usize, r: Seq<char>) -> bool {
    exists|d: Seq<char>| decimal_text(id, d) && r == "#client_name["@ + d + "]"@
}

impl Reply {
    /// A rendering of the reply for diagnostics: the variant's name with its
    /// content in brackets.
    pub fn describe(&self) -> (r: String)
        ensures
            match self {
                Reply::NewConnection(c) => exists|t: Seq<char>|
                    client_text(c.id(), t) && r@ == "NewConnection("@ + t + ")"@,
                Reply::Increment(x) => exists|d: Seq<char>|
                    decimal_text(*x, d) && r@ == "Increment("@ + d + ")"@,
                Reply::Refused => r@ == "Refused"@,
            },
    {
        match self {
            Reply::NewConnection(c) => {
                let t = c.describe();
                let mut r = String::from_str("NewConnection(");
                r.append(t.as_str());
                r.append(")");
                r
            },
            Reply::Increment(x) => {
                let digits = x.to_string();
                let mut r = String::from_str("Increment(");
                r.append(digits.as_str());
                r.append(")");
                proof {
                    assert(decimal_text(*x, digits@));
                }
                r
            },
            Reply::Refused => String::from_str("Refused"),
        }
    }

    /// The counter carried by an answer to an increment, or the error that
    /// an answer of another kind means.
    pub fn into_increment(self) -> (res: Result<usize, CallError>)
        ensures
            res == ordered_increment_answer(self),
    {
        match self {
            Reply::Increment(x) => Ok(x),
            _ => Err(CallError::UnexpectedReply),
        }
    }

    /// The client carried by an answer to a request for a connection, or the
    /// error that another answer means.
    pub fn into_connection(self) -> (res: Result<OrderedExampleClient, CallError>)
        ensures
            res == ordered_connection_answer(self),
    {
        match self {
            Reply::NewConnection(c) => Ok(c),
            Reply::Refused => Err(CallError::Refused),
            Reply::Increment(_) => Err(CallError::UnexpectedReply),
        }
    }
}

impl OrderedExampleClient {
    /// The client with reply receiver `receiver`, queue sender `sender` and
    /// connection id `id`.
    pub fn new(
        receiver: RecvEnd<Reply>,
        sender: SendEnd<(Request, usize)>,
        id: usize,
    ) -> (c: OrderedExampleClient)
        ensures
            c.id() == id,
            c.sending() == sender,
            c.reply_chan() == receiver.chan(),
            c.received() == receiver.receipts(),
    {
        let (r, reply_chan, received) = receiver.into_parts();
        OrderedExampleClient { receiver: reply_receiver_from(r), reply_chan, received, sender, id }
    }

    /// A rendering of the client for diagnostics: `#client_name[id]`.
    pub fn describe(&self) -> (r: String)
        ensures
            client_text(self.id(), r@),
    {
        let digits = self.id.to_string();
        let mut r = String::from_str("#client_name[");
        r.append(digits.as_str());
        r.append("]");
        proof {
            assert(decimal_text(self.id, digits@));
        }
        r
    }

    /// The id of the client's connection, with which it tags its requests.
    pub closed spec fn id(&self) -> usize {
        self.id
    }

    /// The client's sending end into the server's queue, with its model.
    pub closed spec fn sending(&self) -> SendEnd<(Request, usize)> {
        self.sender
    }

    /// The channel the client's replies come from.
    pub closed spec fn reply_chan(&self) -> int {
        self.reply_chan@
    }

    /// What each receive of a reply found, oldest first.
    pub closed spec fn received(&self) -> Seq<Option<Reply>> {
        self.received@
    }

    /// Every request handed to the client's sending end, each with its id,
    /// oldest first.
    pub open spec fn attempts(&self) -> Seq<(Request, usize)> {
        self.sending().attempts()
    }

    /// The requests this client has queued, each with its id, oldest first.
    pub open spec fn sent(&self) -> Seq<(Request, usize)> {
        self.sending().sent()
    }

    /// Asks the server to add `b` to its counter and returns the counter
    /// that the server answers with. Hands exactly `(Request::Increment(b),
    /// id)` to the queue; fails with `Disconnected` when that is not queued
    /// or no answer comes back, and with `UnexpectedReply` when the answer is
    /// of another kind. These failures are returned as errors; the call never
    /// panics.
    pub fn increment(&mut self, b: usize) -> (res: Result<usize, CallError>)
        ensures
            final(self).id() == old(self).id(),
            final(self).sending().chan() == old(self).sending().chan(),
            final(self).reply_chan() == old(self).reply_chan(),
            final(self).attempts() == old(self).attempts().push((Request::Increment(b), old(self).id())),
            final(self).sent() == old(self).sent() || final(self).sent() == old(self).sent().push(
                (Request::Increment(b), old(self).id()),
            ),
            final(self).sent() == old(self).sent() ==> res == Err::<usize, CallError>(
                CallError::Disconnected,
            ) && final(self).received() == old(self).received(),
            final(self).sent() != old(self).sent() ==> one_more(
                old(self).received(),
                final(self).received(),
            ) && res == ordered_increment_outcome(final(self).received().last()),
            final(self).sent() != old(self).sent() && final(self).received().last() is Some
                && final(self).received().last()->0 is Increment ==> res == Ok::<usize, CallError>(
                final(self).received().last()->0->Increment_0,
            ),
            final(self).sent() != old(self).sent() && final(self).received().last() is None ==> res
                == Err::<usize, CallError>(CallError::Disconnected),
    {
        let id = self.id;
        match self.sender.send((Request::Increment(b), id)) {
            Ok(()) => {},
            Err(_) => {
                return Err(CallError::Disconnected);
            },
        }
        let ghost mid = self.received();
        let got = ordered_client_recv(self);
        proof {
            assert(self.received().drop_last() =~= mid);
        }
        match got {
            Ok(reply) => reply.into_increment(),
            Err(_) => Err(CallError::Disconnected),
        }
    }

    /// Asks the server for one more connection and returns its client.
    /// Hands exactly `(Request::NewConnection, id)` to the queue; fails with
    /// `Disconnected` when that is not queued or no answer comes back, with
    /// `Refused` when the server has no id left, and with `UnexpectedReply`
    /// when the answer is of another kind. These failures are returned as
    /// errors; the call never panics.
    pub fn clone(&mut self) -> (res: Result<OrderedExampleClient, CallError>)
        ensures
            final(self).id() == old(self).id(),
            final(self).sending().chan() == old(self).sending().chan(),
            final(self).reply_chan() == old(self).reply_chan(),
            final(self).attempts() == old(self).attempts().push((Request::NewConnection, old(self).id())),
            final(self).sent() == old(self).sent() || final(self).sent() == old(self).sent().push(
                (Request::NewConnection, old(self).id()),
            ),
            final(self).sent() == old(self).sent() ==> res == Err::<OrderedExampleClient, CallError>(
                CallError::Disconnected,
            ) && final(self).received() == old(self).received(),
            final(self).sent() != old(self).sent() ==> one_more(
                old(self).received(),
                final(self).received(),
            ) && res == ordered_connection_outcome(final(self).received().last()),
            final(self).sent() != old(self).sent() && final(self).received().last() is Some
                && final(self).received().last()->0 is NewConnection ==> res == Ok::<
                OrderedExampleClient,
                CallError,
            >(final(self).received().last()->0->NewConnection_0),
            res == Err::<OrderedExampleClient, CallError>(CallError::Refused) ==> final(self).sent()
                != old(self).sent() && final(self).received().last() == Some(Reply::Refused),
    {
        let id = self.id;
        match self.sender.send((Request::NewConnection, id)) {
            Ok(()) => {},
            Err(_) => {
                return Err(CallError::Disconnected);
            },
        }
        let ghost mid = self.received();
        let got = ordered_client_recv(self);
        proof {
            assert(self.received().drop_last() =~= mid);
        }
        match got {
            Ok(reply) => reply.into_connection(),
            Err(_) => Err(CallError::Disconnected),
        }
    }

    /// Tells the server to close this connection by handing exactly
    /// `(Request::DropConnection, id)` to the queue; fails with
    /// `Disconnected` when it is not queued because the server is gone.
    /// Dropping a client sends nothing: this is how a client says goodbye.
    pub fn close(&mut self) -> (res: Result<(), CallError>)
        ensures
            final(self).id() == old(self).id(),
            final(self).sending().chan() == old(self).sending().chan(),
            final(self).reply_chan() == old(self).reply_chan(),
            final(self).received() == old(self).received(),
            final(self).attempts() == old(self).attempts().push((Request::DropConnection, old(self).id())),
            res is Ok ==> final(self).sent() == old(self).sent().push(
                (Request::DropConnection, old(self).id()),
            ),
            res is Err ==> res == Err::<(), CallError>(CallError::Disconnected),
            res is Err ==> final(self).sent() == old(self).sent(),
    {
        let id = self.id;
        match self.sender.send((Request::DropConnection, id)) {
            Ok(()) => Ok(()),
            Err(_) => Err(CallError::Disconnected),
        }
    }
}

/// The server can open a connection exactly when its id map can hand out
/// one more id: it has a hole, or its next id is below `usize::MAX`. The
/// counter plays no part.
pub proof fn lemma_can_open_is_id_capacity(s: OrderedExampleServer)
    ensures
        s.can_open() <==> (s.id_map().holes() != Set::<usize>::empty() || s.id_map().next_id()
            < usize::MAX),
        s.clients() == s.id_map()@,
        s.next_connection_id() == s.id_map().id_for_next_add(),
{
}

/// A client's increment returns the counter in the answer it received: an
/// answer `Increment(x)` gives `Ok(x)`, any other answer `UnexpectedReply`,
/// and no answer `Disconnected`.
pub proof fn lemma_ordered_increment_answer(x: usize, c: OrderedExampleClient)
    ensures
        ordered_increment_outcome(Some(Reply::Increment(x))) == Ok::<usize, CallError>(x),
        ordered_increment_outcome(Some(Reply::NewConnection(c))) == Err::<usize, CallError>(
            CallError::UnexpectedReply,
        ),
        ordered_increment_outcome(Some(Reply::Refused)) == Err::<usize, CallError>(
            CallError::UnexpectedReply,
        ),
        ordered_increment_outcome(None) == Err::<usize, CallError>(CallError::Disconnected),
{
}

/// A client gets the server's answer: when the server has served
/// `(Increment(b), id)` and queued its answer on connection `id`, and the
/// receive of the client with that id got exactly that answer, the client's
/// `increment` returns the server's counter after the addition.
pub proof fn lemma_ordered_increment_returns_served_counter(
    pre: OrderedExampleServer,
    post: OrderedExampleServer,
    b: usize,
    id: usize,
    got: Option<Reply>,
)
    requires
        served_on(pre, post, Request::Increment(b), id, Ok::<bool, ServeError>(false)),
        got == Some(post.clients()[id].sent().last()),
    ensures
        post.counter() == wrapped_sum(pre.counter(), b),
        ordered_increment_outcome(got) == Ok::<usize, CallError>(wrapped_sum(pre.counter(), b)),
{
}

/// A client's request for a connection returns the client in the answer it
/// received: `NewConnection(c)` gives `Ok(c)`; `Refused` is reported exactly
/// when the server answered `Refused`.
pub proof fn lemma_ordered_connection_answer(c: OrderedExampleClient, got: Option<Reply>)
    ensures
        ordered_connection_outcome(Some(Reply::NewConnection(c))) == Ok::<
            OrderedExampleClient,
            CallError,
        >(c),
        ordered_connection_outcome(got) == Err::<OrderedExampleClient, CallError>(
            CallError::Refused,
        ) <==> got == Some(Reply::Refused),
        ordered_connection_outcome(None) == Err::<OrderedExampleClient, CallError>(
            CallError::Disconnected,
        ),
{
}

/// A client gets the connection the server opened for it: when the server,
/// able to open one more connection, has served `(NewConnection, id)` and
/// queued its answer on connection `id`, and the receive of the client with
/// that id got exactly that answer, the client's `clone` returns a fresh
/// client connected to the server under the new id.
pub proof fn lemma_ordered_clone_returns_new_client(
    pre: OrderedExampleServer,
    post: OrderedExampleServer,
    id: usize,
    got: Option<Reply>,
)
    requires
        pre.can_open(),
        served_on(pre, post, Request::NewConnection, id, Ok::<bool, ServeError>(false)),
        got == Some(post.clients()[id].sent().last()),
    ensures
        ordered_connection_outcome(got) matches Ok(c) && ordered_connected(
            c,
            post,
            pre.next_connection_id(),
        ) && fresh_ordered_client(c),
{
}

} // verus!
