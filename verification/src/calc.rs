use crate::rpc::{Handler, RPC, RpcError, serve_spec};
use crate::traits::{Cause, Channel, DataFormat, WireEvent};
use crate::value::{Value, Wireable};
use vstd::prelude::*;

verus! {

broadcast use vstd::seq_lib::lemma_seq_skip_index;

/// The envelope tag of `Ping`.
pub const PING_TAG: u64 = 0;

/// The envelope tag of `Add`.
pub const ADD_TAG: u64 = 1;

/// The declared response of `ping`.
#[derive(Debug, PartialEq, Eq, Structural, Clone, Copy)]
pub struct Pong;

impl Wireable for Pong {
    open spec fn as_value(&self) -> Value {
        Value::Unit
    }

    open spec fn parse_spec(v: Value) -> Option<Pong> {
        match v {
            Value::Unit => Some(Pong),
            _ => None,
        }
    }

    fn to_value(&self) -> (v: Value) {
        Value::Unit
    }

    fn of_value(v: &Value) -> (r: Option<Pong>) {
        match v {
            Value::Unit => Some(Pong),
            _ => None,
        }
    }

    proof fn lemma_embed_round_trip(&self) {
    }
}

/// The request envelope of the demonstration service `Calc`, whose schema is
/// `Ping {} -> Pong` and `Add { a: int, b: int } -> int`: exactly one variant
/// per schema function, carrying that function's fields in declared order.
/// This shape, the handler interface, its dispatch adapter and the client stub
/// below are what the schema determines mechanically.
#[derive(Debug, PartialEq, Eq)]
pub enum CalcRequest {
    Ping {},
    Add { a: i64, b: i64 },
}

impl Wireable for CalcRequest {
    open spec fn as_value(&self) -> Value {
        match *self {
            CalcRequest::Ping {  } => Value::Tagged(PING_TAG, Box::new(Value::Unit)),
            CalcRequest::Add { a, b } => Value::Tagged(
                ADD_TAG,
                Box::new(Value::Pair(Box::new(Value::Int(a)), Box::new(Value::Int(b)))),
            ),
        }
    }

    open spec fn parse_spec(v: Value) -> Option<CalcRequest> {
        match v {
            Value::Tagged(tag, body) => if tag == PING_TAG {
                match *body {
                    Value::Unit => Some(CalcRequest::Ping {  }),
                    _ => None,
                }
            } else if tag == ADD_TAG {
                match *body {
                    Value::Pair(x, y) => match (*x, *y) {
                        (Value::Int(a), Value::Int(b)) => Some(CalcRequest::Add { a, b }),
                        _ => None,
                    },
                    _ => None,
                }
            } else {
                None
            },
            _ => None,
        }
    }

    fn to_value(&self) -> (v: Value) {
        match self {
            CalcRequest::Ping {  } => Value::Tagged(PING_TAG, Box::new(Value::Unit)),
            CalcRequest::Add { a, b } => Value::Tagged(
                ADD_TAG,
                Box::new(Value::Pair(Box::new(Value::Int(*a)), Box::new(Value::Int(*b)))),
            ),
        }
    }

    fn of_value(v: &Value) -> (r: Option<CalcRequest>) {
        match v {
            Value::Tagged(tag, body) => if *tag == PING_TAG {
                match &**body {
                    Value::Unit => Some(CalcRequest::Ping {  }),
                    _ => None,
                }
            } else if *tag == ADD_TAG {
                match &**body {
                    Value::Pair(x, y) => match (&**x, &**y) {
                        (Value::Int(a), Value::Int(b)) => Some(CalcRequest::Add { a: *a, b: *b }),
                        _ => None,
                    },
                    _ => None,
                }
            } else {
                None
            },
            _ => None,
        }
    }

    proof fn lemma_embed_round_trip(&self) {
    }
}

/// The handler capability interface of the demonstration service: one method
/// per schema function, taking the function's fields and returning its
/// declared response, or a failure. The spec functions give each method's
/// semantics; `None` means the method fails on those arguments.
pub trait CalcHandler: Sized {
    spec fn ping_spec(&self) -> Option<Pong>;

    spec fn add_spec(&self, a: i64, b: i64) -> Option<i64>;

    fn ping(&self) -> (r: Result<Pong, Cause>)
        ensures
            match self.ping_spec() {
                Some(p) => r == Ok::<Pong, Cause>(p),
                None => r is Err,
            },
    ;

    fn add(&self, a: i64, b: i64) -> (r: Result<i64, Cause>)
        ensures
            match self.add_spec(a, b) {
                Some(n) => r == Ok::<i64, Cause>(n),
                None => r is Err,
            },
    ;
}

/// The answer a handler gives to one request of the demonstration service.
pub open spec fn calc_answer<H: CalcHandler>(h: H, req: CalcRequest) -> Option<Value> {
    match req {
        CalcRequest::Ping {  } => match h.ping_spec() {
            Some(p) => Some(p.as_value()),
            None => None,
        },
        CalcRequest::Add { a, b } => match h.add_spec(a, b) {
            Some(n) => Some(Value::Int(n)),
            None => None,
        },
    }
}

/// A handler's semantics at the value level: the well-formed requests are the
/// values that parse as the envelope, and each maps to the matching method's
/// answer.
pub open spec fn calc_answers<H: CalcHandler>(h: H) -> Map<Value, Option<Value>> {
    Map::new(
        |v: Value| CalcRequest::parse_spec(v) is Some,
        |v: Value| calc_answer(h, CalcRequest::parse_spec(v).unwrap()),
    )
}

/// A stub's envelope reaches the handler as the very request the caller made:
/// the value a request envelope embeds to always parses back as that envelope,
/// so it is a well-formed request of every handler, answered by the matching
/// method on the very fields the caller passed — `add(a, b)` is answered by
/// the handler's result for `(a, b)`, `ping()` by its `ping` result.
pub proof fn lemma_stub_request_reaches_handler<H: CalcHandler>(h: H, req: CalcRequest)
    ensures
        calc_answers(h).dom().contains(req.as_value()),
        calc_answers(h)[req.as_value()] == calc_answer(h, req),
{
    req.lemma_embed_round_trip();
}

/// The dispatch adapter the schema determines: any implementation of the
/// handler interface is a dispatch target for `RPC::serve`. The loop receives
/// one envelope, invokes the matching method, sends the reply, and repeats —
/// strictly alternating. The channel's orderly close ends it with success;
/// the first failure ends it with that failure, and a failing handler method
/// ends the session without a reply.
impl<C: Channel, F: DataFormat<Repr = C::Wire>, H: CalcHandler> Handler<C, F> for H {
    open spec fn answers(&self) -> Map<Value, Option<Value>> {
        calc_answers(*self)
    }

    #[verifier::loop_isolation(false)]
    fn handle(&mut self, rpc: &mut RPC<C, F>) -> (r: Result<(), RpcError>) {
        let ghost h0 = *self;
        let ghost c0 = rpc.channel;
        let ghost f0 = rpc.format;
        let ghost ev0 = rpc.channel.incoming();
        let ghost s0 = rpc.channel.sent();
        let ghost ans = calc_answers(h0);
        let ghost mut k: int = 0;
        let ghost mut done: Seq<C::Wire> = Seq::empty();
        proof {
            assert(ev0.skip(0) =~= ev0);
            assert(s0 + done =~= s0);
        }
        loop
            invariant
                0 <= k <= ev0.len(),
                done.len() == k,
                *self == h0,
                ans == calc_answers(h0),
                forall|x: Value| #[trigger] rpc.format.enc(x) == f0.enc(x),
                forall|y: C::Wire| #[trigger] rpc.format.dec(y) == f0.dec(y),
                rpc.channel.incoming() == ev0.skip(k),
                rpc.channel.sent() == s0 + done,
                forall|d: C::Wire| #[trigger] rpc.channel.accepts(d) == c0.accepts(d),
                forall|d: C::Wire| #[trigger] rpc.channel.rejects_as_closed(d)
                    == c0.rejects_as_closed(d),
                serve_spec(c0, f0, ans, ev0).0 == done + serve_spec(c0, f0, ans, ev0.skip(k)).0,
                serve_spec(c0, f0, ans, ev0).1 == serve_spec(c0, f0, ans, ev0.skip(k)).1,
            decreases ev0.len() - k,
        {
            let ghost evs = ev0.skip(k);
            let req = match rpc.recv::<CalcRequest>() {
                Ok(q) => q,
                Err(e) => {
                    proof {
                        assert(done + serve_spec(c0, f0, ans, evs).0 =~= done);
                        if evs.len() > 0 {
                            assert(evs.skip(1) =~= ev0.skip(k + 1));
                            assert(evs[0] == ev0[k]);
                        }
                    }
                    match e {
                        RpcError::ChannelClosed => {
                            return Ok(());
                        },
                        other => {
                            return Err(other);
                        },
                    }
                },
            };
            let ghost w0 = evs[0]->Msg_0;
            let ghost v0 = f0.dec(w0).unwrap();
            let send_result = match req {
                CalcRequest::Ping {  } => {
                    match self.ping() {
                        Ok(p) => rpc.send::<Pong>(p),
                        Err(c) => {
                            proof {
                                assert(done + serve_spec(c0, f0, ans, evs).0 =~= done);
                                assert(evs.skip(1) =~= ev0.skip(k + 1));
                                assert(evs[0] == ev0[k]);
                            }
                            return Err(RpcError::HandlerError(c));
                        },
                    }
                },
                CalcRequest::Add { a, b } => {
                    match self.add(a, b) {
                        Ok(n) => rpc.send::<i64>(n),
                        Err(c) => {
                            proof {
                                assert(done + serve_spec(c0, f0, ans, evs).0 =~= done);
                                assert(evs.skip(1) =~= ev0.skip(k + 1));
                                assert(evs[0] == ev0[k]);
                            }
                            return Err(RpcError::HandlerError(c));
                        },
                    }
                },
            };
            match send_result {
                Ok(()) => {
                    proof {
                        let rw = f0.enc(ans[v0].unwrap()).unwrap();
                        let rest = serve_spec(c0, f0, ans, evs.skip(1));
                        assert(serve_spec(c0, f0, ans, evs).0 == seq![rw] + rest.0);
                        assert(evs.skip(1) =~= ev0.skip(k + 1));
                        assert((done + serve_spec(c0, f0, ans, evs).0) =~= (done.push(rw)
                            + rest.0));
                        done = done.push(rw);
                        k = k + 1;
                        assert(rpc.channel.sent() =~= s0 + done);
                    }
                },
                Err(e) => {
                    proof {
                        assert(done + serve_spec(c0, f0, ans, evs).0 =~= done);
                        assert(evs.skip(1) =~= ev0.skip(k + 1));
                        assert(evs[0] == ev0[k]);
                    }
                    return Err(e);
                },
            }
        }
    }
}

/// What one client stub call leaves behind: the encoded request was delivered
/// if the format and the channel took it, and then one reply event was
/// consumed and decoded as the declared response type; each failure keeps the
/// session layer's error mapping — an orderly close surfaces as
/// `ChannelClosed`, and a refused request as `ChannelClosed` exactly where
/// the channel rejects because the peer closed.
pub open spec fn stub_call_post<C: Channel, F: DataFormat<Repr = C::Wire>, T: Wireable>(
    pre: RPC<C, F>,
    req: Value,
    post: RPC<C, F>,
    r: Result<T, RpcError>,
) -> bool {
    &&& forall|x: Value| #[trigger] post.format.enc(x) == pre.format.enc(x)
    &&& forall|y: C::Wire| #[trigger] post.format.dec(y) == pre.format.dec(y)
    &&& forall|d: C::Wire| #[trigger] post.channel.accepts(d) == pre.channel.accepts(d)
    &&& forall|d: C::Wire| #[trigger] post.channel.rejects_as_closed(d)
        == pre.channel.rejects_as_closed(d)
    &&& match pre.format.enc(req) {
        None => {
            &&& r matches Err(RpcError::Other(_))
            &&& post.channel.sent() == pre.channel.sent()
            &&& post.channel.incoming() == pre.channel.incoming()
        },
        Some(w) => if !pre.channel.accepts(w) {
            &&& if pre.channel.rejects_as_closed(w) {
                r matches Err(RpcError::ChannelClosed)
            } else {
                r matches Err(RpcError::Other(_))
            }
            &&& post.channel.sent() == pre.channel.sent()
            &&& post.channel.incoming() == pre.channel.incoming()
        } else {
            &&& post.channel.sent() == pre.channel.sent().push(w)
            &&& ({
                let ev = pre.channel.incoming();
                if ev.len() == 0 {
                    r matches Err(RpcError::ChannelClosed) && post.channel.incoming() == ev
                } else {
                    post.channel.incoming() == ev.skip(1) && match ev[0] {
                        WireEvent::Fault => r matches Err(RpcError::Other(_)),
                        WireEvent::Msg(rw) => match pre.format.dec(rw) {
                            None => r matches Err(RpcError::Other(_)),
                            Some(v) => match T::parse_spec(v) {
                                None => r matches Err(RpcError::Other(_)),
                                Some(t) => r == Ok::<T, RpcError>(t),
                            },
                        },
                    }
                }
            })
        },
    }
}

/// The client stub the schema determines: a type bound to one RPC session,
/// exposing one method per schema function. Each method builds the matching
/// envelope variant, sends it, and returns the decoded response of the
/// declared type — request and response correlate purely by program order on
/// the one session.
pub struct Calc<C, F>(pub RPC<C, F>);

impl<C: Channel, F: DataFormat<Repr = C::Wire>> Calc<C, F> {
    /// Bind a stub to a session.
    pub fn bind(rpc: RPC<C, F>) -> (r: Calc<C, F>)
        ensures
            r.0 == rpc,
    {
        Calc(rpc)
    }

    pub fn ping(&mut self) -> (r: Result<Pong, RpcError>)
        ensures
            stub_call_post::<C, F, Pong>(
                old(self).0,
                (CalcRequest::Ping {  }).as_value(),
                final(self).0,
                r,
            ),
    {
        match self.0.send(CalcRequest::Ping {  }) {
            Ok(()) => self.0.recv::<Pong>(),
            Err(e) => Err(e),
        }
    }

    pub fn add(&mut self, a: i64, b: i64) -> (r: Result<i64, RpcError>)
        ensures
            stub_call_post::<C, F, i64>(
                old(self).0,
                (CalcRequest::Add { a, b }).as_value(),
                final(self).0,
                r,
            ),
    {
        match self.0.send(CalcRequest::Add { a, b }) {
            Ok(()) => self.0.recv::<i64>(),
            Err(e) => Err(e),
        }
    }
}

} // verus!
