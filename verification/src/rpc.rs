use crate::traits::{CHANNEL_CONTEXT, Cause, Channel, ChannelError, DataFormat, WireEvent};
use crate::value::{Value, Wireable};
use vstd::prelude::*;

verus! {

broadcast use vstd::seq_lib::lemma_seq_skip_index;

/// The failure detail when a decoded value does not parse as the requested
/// type.
pub const PARSE_DETAIL: &'static str = "value does not parse as the requested type";

/// How an RPC operation fails: the peer ended the session in an orderly way
/// (expected termination, not a fault), the invoked handler method itself
/// failed, or any other failure — a transport fault, or an encode or decode
/// error.
#[derive(Debug)]
pub enum RpcError {
    ChannelClosed,
    HandlerError(Cause),
    Other(Cause),
}

impl RpcError {
    /// The mapping from channel failures: an orderly `Closed` is
    /// `ChannelClosed`; a transport fault is wrapped, with channel context,
    /// as `Other`.
    pub fn from_channel(e: ChannelError) -> (r: RpcError)
        ensures
            match e {
                ChannelError::Closed => r is ChannelClosed,
                ChannelError::Transport(c) => r matches RpcError::Other(c2) && c2.layers@
                    == c.layers@.push(CHANNEL_CONTEXT),
            },
    {
        match e {
            ChannelError::Closed => RpcError::ChannelClosed,
            ChannelError::Transport(c) => RpcError::Other(c.wrap(CHANNEL_CONTEXT)),
        }
    }
}

/// One RPC session: exactly one channel and one data format, bound at
/// construction and exclusively owned for the session's lifetime. Independent
/// sessions share nothing.
pub struct RPC<C, F> {
    pub channel: C,
    pub format: F,
}

impl<C: Channel, F: DataFormat<Repr = C::Wire>> RPC<C, F> {
    pub fn new(channel: C, format: F) -> (r: RPC<C, F>)
        ensures
            r.channel == channel,
            r.format == format,
    {
        RPC { channel, format }
    }

    /// Receive one wire unit via the channel and decode it, first by the
    /// format into a value and then into the requested type. An orderly close
    /// is `ChannelClosed`; a fault or a value that does not decode is `Other`.
    pub fn recv<T: Wireable>(&mut self) -> (r: Result<T, RpcError>)
        ensures
            forall|x: Value| #[trigger] final(self).format.enc(x) == old(self).format.enc(x),
            forall|y: C::Wire| #[trigger] final(self).format.dec(y) == old(self).format.dec(y),
            final(self).channel.sent() == old(self).channel.sent(),
            forall|d: C::Wire| #[trigger] final(self).channel.accepts(d) == old(self).channel.accepts(d),
            forall|d: C::Wire| #[trigger] final(self).channel.rejects_as_closed(d)
                == old(self).channel.rejects_as_closed(d),
            ({
                let ev = old(self).channel.incoming();
                if ev.len() == 0 {
                    r matches Err(RpcError::ChannelClosed) && final(self).channel.incoming() == ev
                } else {
                    final(self).channel.incoming() == ev.skip(1) && match ev[0] {
                        WireEvent::Fault => r matches Err(RpcError::Other(_)),
                        WireEvent::Msg(w) => match old(self).format.dec(w) {
                            None => r matches Err(RpcError::Other(_)),
                            Some(v) => match T::parse_spec(v) {
                                None => r matches Err(RpcError::Other(_)),
                                Some(t) => r == Ok::<T, RpcError>(t),
                            },
                        },
                    }
                }
            }),
    {
        let data = match self.channel.recv() {
            Ok(d) => d,
            Err(e) => {
                return Err(RpcError::from_channel(e));
            },
        };
        let v = match self.format.decode(data) {
            Ok(v) => v,
            Err(c) => {
                return Err(RpcError::Other(c));
            },
        };
        match T::of_value(&v) {
            Some(t) => Ok(t),
            None => Err(RpcError::Other(Cause::new(PARSE_DETAIL))),
        }
    }

    /// Encode a value, first into the value universe and then by the format,
    /// and send the resulting wire unit via the channel. An encode failure is
    /// `Other`; a channel refusal maps `Closed` to `ChannelClosed` and a
    /// transport fault to `Other`.
    pub fn send<T: Wireable>(&mut self, value: T) -> (r: Result<(), RpcError>)
        ensures
            forall|x: Value| #[trigger] final(self).format.enc(x) == old(self).format.enc(x),
            forall|y: C::Wire| #[trigger] final(self).format.dec(y) == old(self).format.dec(y),
            final(self).channel.incoming() == old(self).channel.incoming(),
            forall|d: C::Wire| #[trigger] final(self).channel.accepts(d) == old(self).channel.accepts(d),
            forall|d: C::Wire| #[trigger] final(self).channel.rejects_as_closed(d)
                == old(self).channel.rejects_as_closed(d),
            ({
                match old(self).format.enc(value.as_value()) {
                    None => r matches Err(RpcError::Other(_)) && final(self).channel.sent() == old(self).channel.sent(),
                    Some(w) => if old(self).channel.accepts(w) {
                        r == Ok::<(), RpcError>(()) && final(self).channel.sent() == old(self).channel.sent().push(w)
                    } else if old(self).channel.rejects_as_closed(w) {
                        r matches Err(RpcError::ChannelClosed)
                            && final(self).channel.sent() == old(self).channel.sent()
                    } else {
                        r matches Err(RpcError::Other(_))
                            && final(self).channel.sent() == old(self).channel.sent()
                    },
                }
            }),
    {
        let v = value.to_value();
        let data = match self.format.encode(v) {
            Ok(w) => w,
            Err(c) => {
                return Err(RpcError::Other(c));
            },
        };
        match self.channel.send(data) {
            Ok(()) => Ok(()),
            Err(e) => Err(RpcError::from_channel(e)),
        }
    }

    /// Hand this session to a handler's dispatch loop.
    pub fn serve<H: Handler<C, F>>(&mut self, handler: H) -> (r: Result<(), RpcError>)
        ensures
            dispatch_post(*old(self), handler.answers(), *final(self), r),
    {
        let mut h = handler;
        h.handle(self)
    }
}

/// How a dispatch loop run ends, as a function of the session's inputs.
pub enum ServeOutcome {
    /// The incoming events were exhausted: the peer closed in an orderly way,
    /// and `serve` reports success.
    Completed,
    /// A transport fault stood where a request was awaited: reported as
    /// `Other`, never as `ChannelClosed`.
    RecvFault,
    /// A message arrived that the format or the envelope type does not decode:
    /// reported as `Other`.
    BadRequest,
    /// The handler method itself failed: reported as `HandlerError`, and no
    /// reply is sent for the failing request.
    HandlerFailed,
    /// The reply could not be encoded by the format: reported as `Other`.
    ReplyUnencodable,
    /// The channel refused the encoded reply: reported as `ChannelClosed`
    /// exactly where the channel rejects because the peer closed, and as
    /// `Other` for a transport fault.
    ReplyRefused,
}

/// What one dispatch step needs of an incoming event in order to produce a
/// reply: a message that the format decodes, to a request the handler answers,
/// whose answer the format encodes, to a wire unit the channel accepts.
pub open spec fn event_serviceable<C: Channel, F: DataFormat<Repr = C::Wire>>(
    c: C,
    f: F,
    answers: Map<Value, Option<Value>>,
    e: WireEvent<C::Wire>,
) -> bool {
    &&& e matches WireEvent::Msg(w)
    &&& f.dec(w) matches Some(v)
    &&& answers.dom().contains(v)
    &&& answers[v] matches Some(resp)
    &&& f.enc(resp) matches Some(rw)
    &&& c.accepts(rw)
}

/// The reply wire unit that a serviceable event produces: the encoded answer
/// to the request the event carries.
pub open spec fn reply_for<C: Channel, F: DataFormat<Repr = C::Wire>>(
    c: C,
    f: F,
    answers: Map<Value, Option<Value>>,
    e: WireEvent<C::Wire>,
) -> C::Wire
    recommends
        event_serviceable(c, f, answers, e),
{
    f.enc(answers[f.dec(e->Msg_0).unwrap()].unwrap()).unwrap()
}

/// The transcript of a dispatch loop over a sequence of incoming events: the
/// replies it sends, in order, and how it ends. `answers` is the handler's
/// semantics at the value level: its domain holds the well-formed requests,
/// and a request maps to its response value, or to `None` where the handler
/// method fails. The loop alternates strictly: each event is answered before
/// the next is looked at, and the first obstruction ends the run.
pub open spec fn serve_spec<C: Channel, F: DataFormat<Repr = C::Wire>>(
    c: C,
    f: F,
    answers: Map<Value, Option<Value>>,
    events: Seq<WireEvent<C::Wire>>,
) -> (Seq<C::Wire>, ServeOutcome)
    decreases events.len(),
{
    if events.len() == 0 {
        (Seq::empty(), ServeOutcome::Completed)
    } else {
        match events[0] {
            WireEvent::Fault => (Seq::empty(), ServeOutcome::RecvFault),
            WireEvent::Msg(w) => match f.dec(w) {
                None => (Seq::empty(), ServeOutcome::BadRequest),
                Some(v) => if !answers.dom().contains(v) {
                    (Seq::empty(), ServeOutcome::BadRequest)
                } else {
                    match answers[v] {
                        None => (Seq::empty(), ServeOutcome::HandlerFailed),
                        Some(resp) => match f.enc(resp) {
                            None => (Seq::empty(), ServeOutcome::ReplyUnencodable),
                            Some(rw) => if !c.accepts(rw) {
                                (Seq::empty(), ServeOutcome::ReplyRefused)
                            } else {
                                let rest = serve_spec(c, f, answers, events.skip(1));
                                (seq![rw] + rest.0, rest.1)
                            },
                        },
                    }
                },
            },
        }
    }
}

/// What a dispatch loop leaves behind: the session's channel has delivered
/// exactly the transcript's replies, in order, after whatever was sent
/// before; the run's result reports the transcript's outcome — success
/// exactly for an orderly close, `HandlerError` exactly for a handler
/// failure, `ChannelClosed` among failures only where the channel refused a
/// reply because the peer closed, and `Other` for everything else. After a
/// failure the loop issues no further receive: the channel's remaining
/// incoming events are exactly the original ones with the consumed prefix —
/// one event per reply, plus the failing event — removed.
pub open spec fn dispatch_post<C: Channel, F: DataFormat<Repr = C::Wire>>(
    pre: RPC<C, F>,
    answers: Map<Value, Option<Value>>,
    post: RPC<C, F>,
    r: Result<(), RpcError>,
) -> bool {
    let t = serve_spec(pre.channel, pre.format, answers, pre.channel.incoming());
    let left = pre.channel.incoming().skip(t.0.len() as int + 1);
    &&& forall|x: Value| #[trigger] post.format.enc(x) == pre.format.enc(x)
    &&& forall|y: C::Wire| #[trigger] post.format.dec(y) == pre.format.dec(y)
    &&& post.channel.sent() == pre.channel.sent() + t.0
    &&& forall|d: C::Wire| #[trigger] post.channel.accepts(d) == pre.channel.accepts(d)
    &&& forall|d: C::Wire| #[trigger] post.channel.rejects_as_closed(d)
        == pre.channel.rejects_as_closed(d)
    &&& match t.1 {
        ServeOutcome::Completed => r == Ok::<(), RpcError>(()) && post.channel.incoming().len()
            == 0,
        ServeOutcome::RecvFault => r matches Err(RpcError::Other(_)) && post.channel.incoming()
            == left,
        ServeOutcome::BadRequest => r matches Err(RpcError::Other(_)) && post.channel.incoming()
            == left,
        ServeOutcome::HandlerFailed => r matches Err(RpcError::HandlerError(_))
            && post.channel.incoming() == left,
        ServeOutcome::ReplyUnencodable => r matches Err(RpcError::Other(_))
            && post.channel.incoming() == left,
        ServeOutcome::ReplyRefused => ({
            let rw = reply_for(
                pre.channel,
                pre.format,
                answers,
                pre.channel.incoming()[t.0.len() as int],
            );
            &&& post.channel.incoming() == left
            &&& if pre.channel.rejects_as_closed(rw) {
                r matches Err(RpcError::ChannelClosed)
            } else {
                r matches Err(RpcError::Other(_))
            }
        }),
    }
}

/// A dispatch target for `RPC::serve`: the server-side end of a session.
/// `answers` is the handler's semantics at the value level; `handle` is owed
/// the dispatch loop's full contract over it.
pub trait Handler<C: Channel, F: DataFormat<Repr = C::Wire>>: Sized {
    /// The handler's semantics: the domain holds the well-formed requests; a
    /// request maps to its response value, or to `None` where the handler
    /// method fails.
    spec fn answers(&self) -> Map<Value, Option<Value>>;

    /// Drive the dispatch loop over the session: receive each request, invoke
    /// the matching method, send the reply; strictly alternating, never a
    /// second receive before the prior reply is sent. Stops with success when
    /// the peer closes, and with the first failure otherwise.
    fn handle(&mut self, rpc: &mut RPC<C, F>) -> (r: Result<(), RpcError>)
        ensures
            dispatch_post(*old(rpc), old(self).answers(), *final(rpc), r),
    ;
}

/// A session whose peer closes before any request ends at once with success
/// and no replies.
pub proof fn lemma_serve_empty<C: Channel, F: DataFormat<Repr = C::Wire>>(
    c: C,
    f: F,
    answers: Map<Value, Option<Value>>,
)
    ensures
        serve_spec(c, f, answers, Seq::empty()).0 == Seq::<C::Wire>::empty(),
        serve_spec(c, f, answers, Seq::empty()).1 is Completed,
{
}

/// Sessions are isolated and replies alternate with requests: the transcript
/// is a function of the session's own channel, format, handler semantics and
/// incoming events alone, and its reply `i` is exactly the encoded answer to
/// the request carried by the session's own event `i`. Traffic on another
/// session can neither change a session's replies nor draw a reply out of it.
pub proof fn lemma_serve_replies<C: Channel, F: DataFormat<Repr = C::Wire>>(
    c: C,
    f: F,
    answers: Map<Value, Option<Value>>,
    events: Seq<WireEvent<C::Wire>>,
)
    ensures
        serve_spec(c, f, answers, events).0.len() <= events.len(),
        forall|i: int|
            0 <= i < serve_spec(c, f, answers, events).0.len() ==> event_serviceable(
                c,
                f,
                answers,
                #[trigger] events[i],
            ) && serve_spec(c, f, answers, events).0[i] == reply_for(c, f, answers, events[i]),
    decreases events.len(),
{
    if events.len() == 0 {
    } else {
        lemma_serve_replies(c, f, answers, events.skip(1));
        let t = serve_spec(c, f, answers, events);
        let rest = serve_spec(c, f, answers, events.skip(1));
        if event_serviceable(c, f, answers, events[0]) {
            assert(t.0 == seq![reply_for(c, f, answers, events[0])] + rest.0);
            assert forall|i: int|
                0 <= i < t.0.len() implies event_serviceable(c, f, answers, #[trigger] events[i])
                && t.0[i] == reply_for(c, f, answers, events[i]) by {
                if i > 0 {
                    assert(events.skip(1)[i - 1] == events[i]);
                    assert(t.0[i] == rest.0[i - 1]);
                }
            }
        }
    }
}

/// A dispatch loop given only serviceable events — K well-formed requests,
/// each answered by the handler and each reply deliverable — replies to every
/// one, in request order, and completes with success when the channel closes
/// after them.
pub proof fn lemma_serve_completes<C: Channel, F: DataFormat<Repr = C::Wire>>(
    c: C,
    f: F,
    answers: Map<Value, Option<Value>>,
    events: Seq<WireEvent<C::Wire>>,
)
    requires
        forall|i: int|
            0 <= i < events.len() ==> event_serviceable(c, f, answers, #[trigger] events[i]),
    ensures
        serve_spec(c, f, answers, events).1 is Completed,
        serve_spec(c, f, answers, events).0.len() == events.len(),
        forall|i: int|
            0 <= i < events.len() ==> serve_spec(c, f, answers, events).0[i] == reply_for(
                c,
                f,
                answers,
                #[trigger] events[i],
            ),
    decreases events.len(),
{
    if events.len() == 0 {
    } else {
        assert(event_serviceable(c, f, answers, events[0]));
        assert forall|i: int|
            0 <= i < events.skip(1).len() implies event_serviceable(
            c,
            f,
            answers,
            #[trigger] events.skip(1)[i],
        ) by {
            assert(events.skip(1)[i] == events[i + 1]);
        }
        lemma_serve_completes(c, f, answers, events.skip(1));
        lemma_serve_replies(c, f, answers, events);
    }
}

/// The first obstruction wins, and a failing handler sends nothing: with `j`
/// serviceable events followed by a request whose handler method fails, the
/// loop replies exactly to the first `j` requests, sends no reply for the
/// failing one, and ends as `HandlerFailed` — surfaced by `handle` as
/// `HandlerError`.
pub proof fn lemma_serve_handler_failure<C: Channel, F: DataFormat<Repr = C::Wire>>(
    c: C,
    f: F,
    answers: Map<Value, Option<Value>>,
    events: Seq<WireEvent<C::Wire>>,
    j: int,
)
    requires
        0 <= j < events.len(),
        forall|i: int| 0 <= i < j ==> event_serviceable(c, f, answers, #[trigger] events[i]),
        events[j] matches WireEvent::Msg(w) && f.dec(w) matches Some(v) && answers.dom().contains(v)
            && answers[v] is None,
    ensures
        serve_spec(c, f, answers, events).1 is HandlerFailed,
        serve_spec(c, f, answers, events).0.len() == j,
    decreases j,
{
    if j == 0 {
    } else {
        assert(event_serviceable(c, f, answers, events[0]));
        assert forall|i: int|
            0 <= i < j - 1 implies event_serviceable(c, f, answers, #[trigger] events.skip(1)[i]) by {
            assert(events.skip(1)[i] == events[i + 1]);
        }
        assert(events.skip(1)[j - 1] == events[j]);
        lemma_serve_handler_failure(c, f, answers, events.skip(1), j - 1);
    }
}

/// An injected transport fault where a request was awaited ends the loop as
/// `RecvFault` after exactly the replies to the requests before it — surfaced
/// by `handle` as `Other`, never as the `ChannelClosed` of an orderly
/// shutdown.
pub proof fn lemma_serve_transport_fault<C: Channel, F: DataFormat<Repr = C::Wire>>(
    c: C,
    f: F,
    answers: Map<Value, Option<Value>>,
    events: Seq<WireEvent<C::Wire>>,
    j: int,
)
    requires
        0 <= j < events.len(),
        forall|i: int| 0 <= i < j ==> event_serviceable(c, f, answers, #[trigger] events[i]),
        events[j] is Fault,
    ensures
        serve_spec(c, f, answers, events).1 is RecvFault,
        serve_spec(c, f, answers, events).0.len() == j,
    decreases j,
{
    if j == 0 {
    } else {
        assert(event_serviceable(c, f, answers, events[0]));
        assert forall|i: int|
            0 <= i < j - 1 implies event_serviceable(c, f, answers, #[trigger] events.skip(1)[i]) by {
            assert(events.skip(1)[i] == events[i + 1]);
        }
        assert(events.skip(1)[j - 1] == events[j]);
        lemma_serve_transport_fault(c, f, answers, events.skip(1), j - 1);
    }
}

} // verus!
