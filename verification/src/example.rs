//! A server that owns a counter and serves any number of clients, each over a
//! two-way connection of its own.
//!
//! A client asks the server to add to the counter and gets back the new
//! value; it can also ask for a further connection, or close its own. The
//! server's decisions (`handle`, `serve`) are deterministic functions of its
//! state and the request; `tick` polls every connection once.
use crate::channel::{duplex, DuplexEnd, SendEnd};
use crossbeam_channel::Receiver;
use vstd::prelude::*;
use vstd::string::StringExecFns;

verus! {

/// What a client asks of the server.
#[derive(Debug)]
pub enum Request {
    /// Open one more connection to the same server.
    NewConnection,
    /// Close the connection the request came on.
    DropConnection,
    /// Add the amount to the counter.
    Increment(usize),
}

/// What the server answers.
pub enum Reply {
    /// The client end of a newly opened connection.
    NewConnection(ExampleClient),
    /// The counter after the addition.
    Increment(usize),
}

/// Why a call from a client produced no answer.
#[derive(PartialEq, Eq, Structural, Debug, Clone, Copy)]
pub enum CallError {
    /// The server end of the connection is gone.
    Disconnected,
    /// The server answered with a reply of another kind.
    UnexpectedReply,
    /// The server could not open another connection: it has no id left to
    /// give it.
    Refused,
}

/// Why `tick` stopped early.
#[derive(PartialEq, Eq, Structural, Debug, Clone, Copy)]
pub enum ServeError {
    /// The reply to the request on this connection could not be delivered:
    /// its client end is gone.
    ReplyUndelivered(usize),
    /// A request came with the id of a connection that the server does not
    /// hold, so its reply has nowhere to go.
    UnknownConnection(usize),
}

/// `a + b` as `usize` arithmetic wraps it.
pub open spec fn wrapped_sum(a: usize, b: usize) -> usize {
    ((a + b) % (usize::MAX + 1)) as usize
}

/// `usize::wrapping_add` computes `wrapped_sum`.
pub(crate) proof fn lemma_wrapping_add_is_wrapped_sum(a: usize, b: usize)
    ensures
        a.wrapping_add(b) == wrapped_sum(a, b),
{
    let m = usize::MAX + 1;
    if a + b > usize::MAX {
        assert((a + b) % m == a + b - m) by (nonlinear_arith)
            requires
                m <= a + b < 2 * m,
        ;
    } else {
        assert((a + b) % m == a + b) by (nonlinear_arith)
            requires
                0 <= a + b < m,
        ;
    }
}

/// The counter after the server has handled `req` with counter `a`.
pub open spec fn counter_after(a: usize, req: Request) -> usize {
    match req {
        Request::Increment(b) => wrapped_sum(a, b),
        _ => a,
    }
}

/// The counter after the server has handled each of `reqs` in turn,
/// starting from `a`.
pub open spec fn counter_after_all(a: usize, reqs: Seq<Request>) -> usize
    decreases reqs.len(),
{
    if reqs.len() == 0 {
        a
    } else {
        counter_after(counter_after_all(a, reqs.drop_last()), reqs.last())
    }
}

/// The sum of the amounts that `reqs` ask to add.
pub open spec fn total_added(reqs: Seq<Request>) -> nat
    decreases reqs.len(),
{
    if reqs.len() == 0 {
        0
    } else {
        total_added(reqs.drop_last()) + match reqs.last() {
            Request::Increment(b) => b as nat,
            _ => 0,
        }
    }
}

/// Whatever requests a server handles, and in whatever order, its counter is
/// the initial counter plus everything that was asked to be added, wrapped
/// as `usize` arithmetic wraps; requests for connections and to close them
/// leave it alone.
pub proof fn lemma_counter_is_total(a: usize, reqs: Seq<Request>)
    ensures
        counter_after_all(a, reqs) == (a + total_added(reqs)) % (usize::MAX + 1),
    decreases reqs.len(),
{
    let m = usize::MAX + 1;
    if reqs.len() == 0 {
        vstd::arithmetic::div_mod::lemma_small_mod(a as nat, m as nat);
    } else {
        let prefix = reqs.drop_last();
        lemma_counter_is_total(a, prefix);
        let before = counter_after_all(a, prefix);
        match reqs.last() {
            Request::Increment(b) => {
                vstd::arithmetic::div_mod::lemma_add_mod_noop_right(
                    b as int,
                    a + total_added(prefix),
                    m as int,
                );
                assert(counter_after_all(a, reqs) == (before + b) % m);
                assert((b + (a + total_added(prefix))) % m == (a + total_added(reqs)) % m);
            },
            _ => {},
        }
    }
}

/// The server: the counter and the server ends of its connections.
pub struct ExampleServer {
    connections: Vec<DuplexEnd<Reply, Request>>,
    a: usize,
}

/// The client `c` talks over the connection whose server end is `end`: it
/// sends into the channel that `end` receives from, and receives from the
/// channel that `end` sends into.
pub open spec fn connected(c: ExampleClient, end: DuplexEnd<Reply, Request>) -> bool {
    &&& c.sending().chan() == end.receiving().chan()
    &&& c.reply_chan() == end.sending().chan()
}

/// A connection end or client that has not sent or received anything.
pub open spec fn fresh_end(end: DuplexEnd<Reply, Request>) -> bool {
    &&& end.attempts() == Seq::<Reply>::empty()
    &&& end.sent() == Seq::<Reply>::empty()
    &&& end.receipts() == Seq::<Option<Request>>::empty()
}

/// A client that has not sent or received anything.
pub open spec fn fresh_client(c: ExampleClient) -> bool {
    &&& c.attempts() == Seq::<Request>::empty()
    &&& c.sent() == Seq::<Request>::empty()
    &&& c.received() == Seq::<Option<Reply>>::empty()
}

/// Whether `reply` answers `req` for a server whose counter is now `counter`
/// and whose newest connection end is `newest`: an increment is answered
/// with the counter, a request for a connection with a fresh client of the
/// newest connection.
pub open spec fn answers(
    req: Request,
    reply: Reply,
    counter: usize,
    newest: DuplexEnd<Reply, Request>,
) -> bool {
    match req {
        Request::Increment(_) => reply == Reply::Increment(counter),
        Request::NewConnection => reply matches Reply::NewConnection(c) && connected(c, newest)
            && fresh_client(c),
        Request::DropConnection => false,
    }
}

/// Serving `req`, which arrived on connection `i`, took the server from `pre`
/// to `post` with result `res`: the counter moved as the request says; a
/// request to close removed connection `i`; any other request left the other
/// connections alone, opened a new, fresh connection when asked to, and
/// handed its answer to connection `i`, where it was queued, or else the
/// call failed because the answer could not be delivered.
pub open spec fn served(
    pre: ExampleServer,
    post: ExampleServer,
    i: usize,
    req: Request,
    res: Result<bool, ServeError>,
) -> bool {
    let n = pre.ends().len();
    let before = pre.ends()[i as int];
    let after = post.ends()[i as int];
    let answer = after.attempts().last();
    &&& post.counter() == counter_after(pre.counter(), req)
    &&& if req is DropConnection {
        &&& res == Ok::<bool, ServeError>(true)
        &&& post.ends() == pre.ends().remove(i as int)
    } else {
        &&& post.ends().len() == (if req is NewConnection {
            n + 1
        } else {
            n
        })
        &&& forall|j: int| 0 <= j < n && j != i ==> #[trigger] post.ends()[j] == pre.ends()[j]
        &&& req is NewConnection ==> fresh_end(post.ends()[n as int])
        &&& after.same_channels(before)
        &&& after.receiving() == before.receiving()
        &&& after.attempts().len() == before.attempts().len() + 1
        &&& after.attempts().drop_last() == before.attempts()
        &&& answers(req, answer, post.counter(), post.ends().last())
        &&& {
            ||| res == Ok::<bool, ServeError>(false) && after.sent() == before.sent().push(answer)
            ||| res == Err::<bool, ServeError>(ServeError::ReplyUndelivered(i)) && after.sent()
                == before.sent()
        }
    }
}

/// Looking at connection `i` of `pre`, without waiting for a message, found
/// `out` (`None` when nothing was waiting) and recorded it on that
/// connection, giving `mid`; nothing else changed.
pub open spec fn looked(pre: ExampleServer, mid: ExampleServer, i: usize, out: Option<Request>) -> bool {
    let n = pre.ends().len();
    &&& mid.counter() == pre.counter()
    &&& mid.ends().len() == n
    &&& forall|j: int| 0 <= j < n && j != i ==> #[trigger] mid.ends()[j] == pre.ends()[j]
    &&& mid.ends()[i as int].same_channels(pre.ends()[i as int])
    &&& mid.ends()[i as int].sending() == pre.ends()[i as int].sending()
    &&& mid.ends()[i as int].receipts() == pre.ends()[i as int].receipts().push(out)
    &&& mid.ends()[i as int].receiving().waits() == pre.ends()[i as int].receiving().waits().push(
        false,
    )
}

/// One step of `tick` at connection `i`: it looked there and found `out`
/// (giving `mid`); when nothing was waiting the server stayed as it was, and
/// otherwise the request found was served (giving `post`) with result `r`.
pub open spec fn polled(
    pre: ExampleServer,
    mid: ExampleServer,
    post: ExampleServer,
    i: usize,
    out: Option<Request>,
    r: Result<bool, ServeError>,
) -> bool {
    &&& looked(pre, mid, i, out)
    &&& match out {
        None => post == mid && r == Ok::<bool, ServeError>(false),
        Some(req) => served(mid, post, i, req, r),
    }
}

/// `tick` took the server from `pre` to `post` with result `res` by looking
/// at connections 0, 1, ... in turn, once each: at connection `j` it found
/// `outs[j]` and went from `states[j]` through `mids[j]` to `states[j + 1]`
/// with result `rs[j]`. It went on while requests were served without
/// closing their connection and without failure, and looked at no more
/// connections than were open when it began.
pub open spec fn tick_trace(
    pre: ExampleServer,
    post: ExampleServer,
    res: Result<(), ServeError>,
    states: Seq<ExampleServer>,
    mids: Seq<ExampleServer>,
    outs: Seq<Option<Request>>,
    rs: Seq<Result<bool, ServeError>>,
) -> bool {
    let k = outs.len();
    &&& k <= pre.ends().len()
    &&& states.len() == k + 1
    &&& mids.len() == k
    &&& rs.len() == k
    &&& states[0] == pre
    &&& states[k as int] == post
    &&& forall|j: int|
        0 <= j < k ==> polled(states[j], mids[j], states[j + 1], j as usize, #[trigger] outs[j], rs[j])
    &&& forall|j: int| 0 <= j < k - 1 ==> #[trigger] rs[j] == Ok::<bool, ServeError>(false)
    &&& k < pre.ends().len() ==> k > 0 && rs[k - 1] != Ok::<bool, ServeError>(false)
    &&& res == (if k > 0 && rs[k - 1] is Err {
        Err::<(), ServeError>(rs[k - 1]->Err_0)
    } else {
        Ok::<(), ServeError>(())
    })
}

impl ExampleServer {
    /// The counter.
    pub closed spec fn counter(&self) -> usize {
        self.a
    }

    /// The server ends of the open connections, in the order they were
    /// opened.
    pub closed spec fn ends(&self) -> Seq<DuplexEnd<Reply, Request>> {
        self.connections@
    }

    /// A server with counter `a` and no connection.
    pub fn new(a: usize) -> (s: Self)
        ensures
            s.counter() == a,
            s.ends() == Seq::<DuplexEnd<Reply, Request>>::empty(),
    {
        Self { connections: Vec::new(), a }
    }

    /// Opens a new connection: keeps its server end after the others and
    /// returns a client for the other end. Neither end has sent anything.
    pub fn connection(&mut self) -> (c: ExampleClient)
        ensures
            final(self).counter() == old(self).counter(),
            final(self).ends().len() == old(self).ends().len() + 1,
            final(self).ends().subrange(0, old(self).ends().len() as int) == old(self).ends(),
            fresh_end(final(self).ends().last()),
            fresh_client(c),
            connected(c, final(self).ends().last()),
    {
        let (x1, x2) = duplex();
        self.connections.push(x1);
        ExampleClient::new(x2)
    }

    /// Decides the answer to one request: the reply to send, if any, and
    /// whether the connection it came on is to be closed. An increment wraps
    /// around on overflow, as `usize` addition does in a release build; it
    /// never panics.
    pub fn handle(&mut self, req: Request) -> (res: (Option<Reply>, bool))
        ensures
            final(self).counter() == counter_after(old(self).counter(), req),
            match req {
                Request::NewConnection => {
                    &&& res.0 matches Some(Reply::NewConnection(c)) && fresh_client(c) && connected(
                        c,
                        final(self).ends().last(),
                    )
                    &&& !res.1
                    &&& final(self).ends().len() == old(self).ends().len() + 1
                    &&& final(self).ends().subrange(0, old(self).ends().len() as int) == old(
                        self,
                    ).ends()
                    &&& fresh_end(final(self).ends().last())
                },
                Request::DropConnection => {
                    &&& res.0 is None
                    &&& res.1
                    &&& final(self).ends() == old(self).ends()
                },
                Request::Increment(_) => {
                    &&& res.0 == Some(Reply::Increment(final(self).counter()))
                    &&& !res.1
                    &&& final(self).ends() == old(self).ends()
                },
            },
    {
        match req {
            Request::NewConnection => (Some(Reply::NewConnection(self.connection())), false),
            Request::DropConnection => (None, true),
            Request::Increment(b) => {
                let sum = self.a.wrapping_add(b);
                proof {
                    lemma_wrapping_add_is_wrapped_sum(self.a, b);
                }
                self.a = sum;
                (Some(Reply::Increment(self.a)), false)
            },
        }
    }

    /// Serves one request that arrived on connection `i`: handles it, sends
    /// the reply back on that connection, and closes the connection when the
    /// request asks so. Returns whether it closed the connection; fails when
    /// the reply could not be delivered.
    pub fn serve(&mut self, i: usize, req: Request) -> (res: Result<bool, ServeError>)
        requires
            i < old(self).ends().len(),
        ensures
            served(*old(self), *final(self), i, req, res),
    {
        let ghost pre = *self;
        let ghost n = pre.ends().len();
        let (res, remove) = self.handle(req);
        let ghost mid = *self;
        proof {
            assert forall|j: int| 0 <= j < n implies #[trigger] mid.ends()[j] == pre.ends()[j] by {
                assert(mid.ends().subrange(0, n as int)[j] == mid.ends()[j]);
            }
        }
        if let Some(r) = res {
            let ghost reply = r;
            let ghost e = mid.ends()[i as int];
            let sent = self.connections[i].send(r);
            proof {
                assert(e.attempts().push(reply).drop_last() =~= e.attempts());
                assert(answers(req, reply, self.counter(), self.ends().last()));
            }
            match sent {
                Ok(()) => {},
                Err(_) => {
                    return Err(ServeError::ReplyUndelivered(i));
                },
            }
        }
        if remove {
            self.connections.remove(i);
            return Ok(true);
        }
        Ok(false)
    }

    /// Looks once at each connection that was open when the call began, in
    /// order, and serves the request waiting there, if any. Stops after a
    /// connection has been closed, and fails as soon as a reply cannot be
    /// delivered.
    pub fn tick(&mut self) -> (res: Result<(), ServeError>)
        ensures
            exists|
                states: Seq<ExampleServer>,
                mids: Seq<ExampleServer>,
                outs: Seq<Option<Request>>,
                rs: Seq<Result<bool, ServeError>>,
            | #[trigger] tick_trace(*old(self), *final(self), res, states, mids, outs, rs),
            res matches Err(e) ==> e is ReplyUndelivered,
            old(self).ends().len() == 0 ==> res == Ok::<(), ServeError>(()) && *final(self)
                == *old(self),
    {
        let n = self.connections.len();
        let mut i: usize = 0;
        let ghost states: Seq<ExampleServer> = seq![*self];
        let ghost mids: Seq<ExampleServer> = Seq::empty();
        let ghost outs: Seq<Option<Request>> = Seq::empty();
        let ghost rs: Seq<Result<bool, ServeError>> = Seq::empty();
        while i < n
            invariant
                i <= n,
                n == old(self).ends().len(),
                n <= self.ends().len(),
                outs.len() == i,
                mids.len() == i,
                rs.len() == i,
                states.len() == i + 1,
                states[0] == *old(self),
                states[i as int] == *self,
                forall|j: int|
                    0 <= j < i ==> polled(
                        states[j],
                        mids[j],
                        states[j + 1],
                        j as usize,
                        #[trigger] outs[j],
                        rs[j],
                    ),
                forall|j: int| 0 <= j < i ==> #[trigger] rs[j] == Ok::<bool, ServeError>(false),
            decreases n - i,
        {
            let got = self.connections[i].try_recv();
            let ghost mid = *self;
            match got {
                Ok(m) => {
                    let ghost req = m;
                    let r = self.serve(i, m);
                    proof {
                        states = states.push(*self);
                        mids = mids.push(mid);
                        outs = outs.push(Some(req));
                        rs = rs.push(r);
                    }
                    match r {
                        Ok(true) => {
                            let res = Ok(());
                            proof {
                                assert(tick_trace(*old(self), *self, res, states, mids, outs, rs));
                            }
                            return res;
                        },
                        Ok(false) => {},
                        Err(e) => {
                            let res = Err(e);
                            proof {
                                assert(tick_trace(*old(self), *self, res, states, mids, outs, rs));
                            }
                            return res;
                        },
                    }
                },
                Err(_) => {
                    proof {
                        states = states.push(*self);
                        mids = mids.push(mid);
                        outs = outs.push(None);
                        rs = rs.push(Ok(false));
                    }
                },
            }
            i += 1;
        }
        let res = Ok(());
        proof {
            assert(tick_trace(*old(self), *self, res, states, mids, outs, rs));
        }
        res
    }
}

/// A client gets the server's answer: when the server has served
/// `Increment(b)` on connection `i` and queued its answer there, and the
/// receive of a client connected to that connection got exactly that answer
/// (crossbeam hands each queued message to the receiving end, in order), the
/// client's `increment` returns the server's counter after the addition.
pub proof fn lemma_increment_returns_served_counter(
    pre: ExampleServer,
    post: ExampleServer,
    i: usize,
    b: usize,
    got: Option<Reply>,
)
    requires
        i < pre.ends().len(),
        served(pre, post, i, Request::Increment(b), Ok::<bool, ServeError>(false)),
        got == Some(post.ends()[i as int].sent().last()),
    ensures
        increment_outcome(got) == Ok::<usize, CallError>(wrapped_sum(pre.counter(), b)),
        post.counter() == wrapped_sum(pre.counter(), b),
{
}

/// A client's calls return what the answer they received carries: an
/// answer `Increment(x)` makes `increment` return `Ok(x)`, an answer
/// `NewConnection(c)` makes `clone` return `Ok(c)`, an answer of the other
/// kind gives `UnexpectedReply`, and no answer `Disconnected`.
pub proof fn lemma_answers_returned(x: usize, c: ExampleClient)
    ensures
        increment_outcome(Some(Reply::Increment(x))) == Ok::<usize, CallError>(x),
        increment_outcome(Some(Reply::NewConnection(c))) == Err::<usize, CallError>(
            CallError::UnexpectedReply,
        ),
        increment_outcome(None) == Err::<usize, CallError>(CallError::Disconnected),
        connection_outcome(Some(Reply::NewConnection(c))) == Ok::<ExampleClient, CallError>(c),
        connection_outcome(Some(Reply::Increment(x))) == Err::<ExampleClient, CallError>(
            CallError::UnexpectedReply,
        ),
        connection_outcome(None) == Err::<ExampleClient, CallError>(CallError::Disconnected),
{
}

/// A client gets the connection the server opened for it: when the server
/// has served `NewConnection` on connection `i` and queued its answer there,
/// and the receive of a client connected to that connection got exactly that
/// answer, the client's `clone` returns a fresh client connected to the
/// server's newest connection end.
pub proof fn lemma_clone_returns_new_client(
    pre: ExampleServer,
    post: ExampleServer,
    i: usize,
    got: Option<Reply>,
)
    requires
        i < pre.ends().len(),
        served(pre, post, i, Request::NewConnection, Ok::<bool, ServeError>(false)),
        got == Some(post.ends()[i as int].sent().last()),
    ensures
        post.ends().len() == pre.ends().len() + 1,
        connection_outcome(got) matches Ok(c) && connected(c, post.ends().last()) && fresh_client(
            c,
        ),
{
}

/// The counter that an answer to an increment carries, or the error that an
/// answer of another kind means.
pub open spec fn increment_answer(reply: Reply) -> Result<usize, CallError> {
    match reply {
        Reply::Increment(x) => Ok(x),
        Reply::NewConnection(_) => Err(CallError::UnexpectedReply),
    }
}

/// The client that an answer to a request for a connection carries, or the
/// error that an answer of another kind means.
pub open spec fn connection_answer(reply: Reply) -> Result<ExampleClient, CallError> {
    match reply {
        Reply::NewConnection(c) => Ok(c),
        Reply::Increment(_) => Err(CallError::UnexpectedReply),
    }
}

/// `s` is how `to_string` writes the number `x`.
pub open spec fn decimal_text(x: usize, s: Seq<char>) -> bool {
    exists|d: String| vstd::string::to_string_from_display_ensures::<usize>(&x, d) && d@ == s
}

impl Reply {
    /// A rendering of the reply for diagnostics: the variant's name with its
    /// content in brackets, the client shown as `#client_name`.
    pub fn describe(&self) -> (r: String)
        ensures
            match self {
                Reply::NewConnection(_) => r@ == "NewConnection(#client_name)"@,
                Reply::Increment(x) => exists|d: Seq<char>|
                    decimal_text(*x, d) && r@ == "Increment("@ + d + ")"@,
            },
    {
        match self {
            Reply::NewConnection(_) => String::from_str("NewConnection(#client_name)"),
            Reply::Increment(x) => {
                let digits = x.to_string();
                let mut r = String::from_str("Increment(");
                r.append(digits.as_str());
                r.append(")");
                proof {
                    assert(decimal_text(*x, digits@));
                }
                r
            },
        }
    }

    /// The counter carried by an answer to an increment, or the error that
    /// an answer of another kind means.
    pub fn into_increment(self) -> (res: Result<usize, CallError>)
        ensures
            res == increment_answer(self),
    {
        match self {
            Reply::Increment(x) => Ok(x),
            Reply::NewConnection(_) => Err(CallError::UnexpectedReply),
        }
    }

    /// The client carried by an answer to a request for a new connection, or
    /// the error that an answer of another kind means.
    pub fn into_connection(self) -> (res: Result<ExampleClient, CallError>)
        ensures
            res == connection_answer(self),
    {
        match self {
            Reply::NewConnection(c) => Ok(c),
            Reply::Increment(_) => Err(CallError::UnexpectedReply),
        }
    }
}

/// The crossbeam receiver of a client's replies, held as an opaque value.
///
/// A reply can carry a client and a client holds this receiver, so the type
/// of what it receives refers back to the type that holds it. The receiver's
/// model (its channel and what it received) is kept in the client, and only
/// `client_recv` reads the receiver.
#[verifier::external_body]
struct ClientReplies {
    r: Receiver<Reply>,
}

/// Wraps a receiver of replies. Nothing is claimed of the result.
#[verifier::external_body]
fn client_replies_from(r: Receiver<Reply>) -> ClientReplies {
    ClientReplies { r }
}

/// `crossbeam_channel::Receiver::recv` on the client's reply receiver: blocks
/// until a reply arrives or the server end is gone. The client's model
/// records what it got; its sending side and reply channel stay as they
/// were. Which reply comes back depends on the server and is not claimed.
#[verifier::external_body]
fn client_recv(c: &mut ExampleClient) -> (res: Result<Reply, crossbeam_channel::RecvError>)
    ensures
        final(c).sending() == old(c).sending(),
        final(c).reply_chan() == old(c).reply_chan(),
        res matches Ok(m) ==> final(c).received() == old(c).received().push(Some(m)),
        res is Err ==> final(c).received() == old(c).received().push(None),
{
    c.replies.r.recv()
}

/// `after` is `before` with one more entry.
pub open spec fn one_more<T>(before: Seq<T>, after: Seq<T>) -> bool {
    &&& after.len() == before.len() + 1
    &&& after.drop_last() == before
}

/// What a call that waits for an increment's answer returns, from what its
/// receive got.
pub open spec fn increment_outcome(got: Option<Reply>) -> Result<usize, CallError> {
    match got {
        None => Err(CallError::Disconnected),
        Some(r) => increment_answer(r),
    }
}

/// What a call that waits for a new connection returns, from what its
/// receive got.
pub open spec fn connection_outcome(got: Option<Reply>) -> Result<ExampleClient, CallError> {
    match got {
        None => Err(CallError::Disconnected),
        Some(r) => connection_answer(r),
    }
}

/// A client: the sending side of its end of a connection, the receiver of
/// its replies, and the model of that receiver.
pub struct ExampleClient {
    out: SendEnd<Request>,
    replies: ClientReplies,
    reply_chan: Ghost<int>,
    received: Ghost<Seq<Option<Reply>>>,
}

impl ExampleClient {
    /// The sending side of the client's end, with its model.
    pub closed spec fn sending(&self) -> SendEnd<Request> {
        self.out
    }

    /// The channel the client's replies come from.
    pub closed spec fn reply_chan(&self) -> int {
        self.reply_chan@
    }

    /// What each receive of a reply found, oldest first.
    pub closed spec fn received(&self) -> Seq<Option<Reply>> {
        self.received@
    }

    /// Every request handed to the client's sending side, oldest first.
    pub open spec fn attempts(&self) -> Seq<Request> {
        self.sending().attempts()
    }

    /// The requests this client has queued, oldest first.
    pub open spec fn sent(&self) -> Seq<Request> {
        self.sending().sent()
    }

    /// A rendering of the client for diagnostics.
    pub fn describe(&self) -> (r: String)
        ensures
            r@ == "#client_name"@,
    {
        String::from_str("#client_name")
    }

    /// The client for the given client end: it sends through that end's
    /// sending side and receives from its receiving side.
    pub fn new(connection: DuplexEnd<Request, Reply>) -> (c: ExampleClient)
        ensures
            c.sending() == connection.sending(),
            c.reply_chan() == connection.receiving().chan(),
            c.received() == connection.receipts(),
    {
        let (out, inp) = connection.into_parts();
        let (r, reply_chan, received) = inp.into_parts();
        ExampleClient { out, replies: client_replies_from(r), reply_chan, received }
    }

    /// Asks the server to add `b` to its counter and returns the counter
    /// that the server answers with. Hands exactly `Request::Increment(b)` to
    /// its sending side; fails with `Disconnected` when that is not queued or
    /// no answer comes back, and with `UnexpectedReply` when the answer is of
    /// another kind. These failures are returned as errors; the call never
    /// panics.
    pub fn increment(&mut self, b: usize) -> (res: Result<usize, CallError>)
        ensures
            final(self).sending().chan() == old(self).sending().chan(),
            final(self).reply_chan() == old(self).reply_chan(),
            final(self).attempts() == old(self).attempts().push(Request::Increment(b)),
            final(self).sent() == old(self).sent() || final(self).sent() == old(self).sent().push(
                Request::Increment(b),
            ),
            final(self).sent() == old(self).sent() ==> res == Err::<usize, CallError>(
                CallError::Disconnected,
            ) && final(self).received() == old(self).received(),
            final(self).sent() != old(self).sent() ==> one_more(
                old(self).received(),
                final(self).received(),
            ) && res == increment_outcome(final(self).received().last()),
            final(self).sent() != old(self).sent() && final(self).received().last() is Some
                && final(self).received().last()->0 is Increment ==> res == Ok::<usize, CallError>(
                final(self).received().last()->0->Increment_0,
            ),
    {
        match self.out.send(Request::Increment(b)) {
            Ok(()) => {},
            Err(_) => {
                return Err(CallError::Disconnected);
            },
        }
        let ghost mid = self.received();
        let got = client_recv(self);
        proof {
            assert(self.received().drop_last() =~= mid);
        }
        match got {
            Ok(reply) => reply.into_increment(),
            Err(_) => Err(CallError::Disconnected),
        }
    }

    /// Asks the server for one more connection and returns its client.
    /// Hands exactly `Request::NewConnection` to its sending side; fails with
    /// `Disconnected` when that is not queued or no answer comes back, and
    /// with `UnexpectedReply` when the answer is of another kind. These
    /// failures are returned as errors; the call never panics.
    pub fn clone(&mut self) -> (res: Result<ExampleClient, CallError>)
        ensures
            final(self).sending().chan() == old(self).sending().chan(),
            final(self).reply_chan() == old(self).reply_chan(),
            final(self).attempts() == old(self).attempts().push(Request::NewConnection),
            final(self).sent() == old(self).sent() || final(self).sent() == old(self).sent().push(
                Request::NewConnection,
            ),
            final(self).sent() == old(self).sent() ==> res == Err::<ExampleClient, CallError>(
                CallError::Disconnected,
            ) && final(self).received() == old(self).received(),
            final(self).sent() != old(self).sent() ==> one_more(
                old(self).received(),
                final(self).received(),
            ) && res == connection_outcome(final(self).received().last()),
            final(self).sent() != old(self).sent() && final(self).received().last() is Some
                && final(self).received().last()->0 is NewConnection ==> res == Ok::<
                ExampleClient,
                CallError,
            >(final(self).received().last()->0->NewConnection_0),
    {
        match self.out.send(Request::NewConnection) {
            Ok(()) => {},
            Err(_) => {
                return Err(CallError::Disconnected);
            },
        }
        let ghost mid = self.received();
        let got = client_recv(self);
        proof {
            assert(self.received().drop_last() =~= mid);
        }
        match got {
            Ok(reply) => reply.into_connection(),
            Err(_) => Err(CallError::Disconnected),
        }
    }

    /// Tells the server to close this connection by handing exactly
    /// `Request::DropConnection` to its sending side; fails with
    /// `Disconnected` when it is not queued because the server is gone.
    /// Dropping a client sends nothing: this is how a client says goodbye.
    pub fn close(&mut self) -> (res: Result<(), CallError>)
        ensures
            final(self).sending().chan() == old(self).sending().chan(),
            final(self).reply_chan() == old(self).reply_chan(),
            final(self).received() == old(self).received(),
            final(self).attempts() == old(self).attempts().push(Request::DropConnection),
            res is Ok ==> final(self).sent() == old(self).sent().push(Request::DropConnection),
            res is Err ==> res == Err::<(), CallError>(CallError::Disconnected),
            res is Err ==> final(self).sent() == old(self).sent(),
    {
        match self.out.send(Request::DropConnection) {
            Ok(()) => Ok(()),
            Err(_) => Err(CallError::Disconnected),
        }
    }
}

} // verus!
