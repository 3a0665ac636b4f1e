use crate::value::Value;
use vstd::prelude::*;

verus! {

broadcast use vstd::seq_lib::lemma_seq_skip_index;

/// The context label that the RPC layer adds when it wraps a transport fault.
pub const CHANNEL_CONTEXT: &'static str = "channel error";

/// A wrapped lower-layer failure: the failure's detail, then the context
/// labels each layer added on the way up, innermost first. No layer ever
/// swallows the cause below it; it only pushes a label.
#[derive(Debug)]
pub struct Cause {
    pub layers: Vec<&'static str>,
}

impl Cause {
    pub fn new(detail: &'static str) -> (r: Cause)
        ensures
            r.layers@ == seq![detail],
    {
        Cause { layers: vec![detail] }
    }

    /// Wrap this cause with one more layer of context.
    pub fn wrap(self, context: &'static str) -> (r: Cause)
        ensures
            r.layers@ == self.layers@.push(context),
    {
        let mut layers = self.layers;
        layers.push(context);
        Cause { layers }
    }
}

/// A concrete codec's failure, attributed to the failing codec by name.
#[derive(Debug)]
pub struct CodecError {
    pub codec: &'static str,
    pub detail: &'static str,
}

impl CodecError {
    /// A codec failure inside a composed channel surfaces as a channel-level
    /// transport fault that keeps the codec's name for diagnostic context.
    pub fn into_transport(self) -> (r: ChannelError)
        ensures
            r matches ChannelError::Transport(c) && c.layers@ == seq![self.detail, self.codec],
    {
        ChannelError::Transport(Cause { layers: vec![self.detail, self.codec] })
    }
}

/// How a channel operation fails: the peer ended the stream in an orderly way
/// (expected termination, not a fault), or a lower-level transport failure,
/// which includes a wrapped codec failure of a composed channel.
#[derive(Debug)]
pub enum ChannelError {
    Closed,
    Transport(Cause),
}

/// One incoming event of a channel, as the receiving side will observe it: a
/// wire unit, or a transport fault standing in its place.
#[derive(Debug)]
pub enum WireEvent<W> {
    Msg(W),
    Fault,
}

/// A typed serialization format between plain values and a channel's wire
/// representation. The model is a pair of partial maps, inverse to each other
/// on everything the format accepts; a format may keep scratch state across
/// calls, so long as the transform itself stays put.
pub trait DataFormat: Sized {
    type Repr;

    /// Which values this format accepts, and their encodings.
    spec fn enc(&self, v: Value) -> Option<Self::Repr>;

    /// Which wire representations decode, and to what.
    spec fn dec(&self, data: Self::Repr) -> Option<Value>;

    fn encode(&mut self, value: Value) -> (r: Result<Self::Repr, Cause>)
        ensures
            forall|x: Value| #[trigger] final(self).enc(x) == old(self).enc(x),
            forall|y: Self::Repr| #[trigger] final(self).dec(y) == old(self).dec(y),
            match r {
                Ok(w) => old(self).enc(value) == Some(w),
                Err(_) => old(self).enc(value) is None,
            },
    ;

    fn decode(&mut self, data: Self::Repr) -> (r: Result<Value, Cause>)
        ensures
            forall|x: Value| #[trigger] final(self).enc(x) == old(self).enc(x),
            forall|y: Self::Repr| #[trigger] final(self).dec(y) == old(self).dec(y),
            match r {
                Ok(v) => old(self).dec(data) == Some(v),
                Err(_) => old(self).dec(data) is None,
            },
    ;

    /// The round-trip law every format owes: decoding an encoded value yields
    /// the value back.
    proof fn lemma_round_trip(&self, v: Value)
        requires
            self.enc(v) is Some,
        ensures
            self.dec(self.enc(v).unwrap()) == Some(v),
    ;
}

/// A reversible transform between an inner and an outer representation of the
/// same payload, composable onto a channel; its name is used only for error
/// attribution. The model is a pair of partial maps; a codec may keep
/// internal state across calls, so long as its name and the transform itself
/// stay put.
pub trait Codec: Sized {
    type In;
    type Out;

    /// The codec's name as a sequence of characters.
    spec fn name_spec(&self) -> Seq<char>;

    /// Which inner payloads this codec accepts, and their encodings.
    spec fn enc(&self, data: Self::In) -> Option<Self::Out>;

    /// Which outer payloads decode, and to what.
    spec fn dec(&self, data: Self::Out) -> Option<Self::In>;

    fn name(&self) -> (r: &'static str)
        ensures
            r@ == self.name_spec(),
    ;

    fn encode(&mut self, data: Self::In) -> (r: Result<Self::Out, CodecError>)
        ensures
            final(self).name_spec() == old(self).name_spec(),
            forall|x: Self::In| #[trigger] final(self).enc(x) == old(self).enc(x),
            forall|y: Self::Out| #[trigger] final(self).dec(y) == old(self).dec(y),
            match r {
                Ok(out) => old(self).enc(data) == Some(out),
                Err(e) => old(self).enc(data) is None && e.codec@ == old(self).name_spec(),
            },
    ;

    fn decode(&mut self, data: Self::Out) -> (r: Result<Self::In, CodecError>)
        ensures
            final(self).name_spec() == old(self).name_spec(),
            forall|x: Self::In| #[trigger] final(self).enc(x) == old(self).enc(x),
            forall|y: Self::Out| #[trigger] final(self).dec(y) == old(self).dec(y),
            match r {
                Ok(inner) => old(self).dec(data) == Some(inner),
                Err(e) => old(self).dec(data) is None && e.codec@ == old(self).name_spec(),
            },
    ;

    /// The round-trip law every codec owes: any payload the codec accepts
    /// decodes back to itself.
    proof fn lemma_round_trip(&self, data: Self::In)
        requires
            self.enc(data) is Some,
        ensures
            self.dec(self.enc(data).unwrap()) == Some(data),
    ;
}

/// An abstract bidirectional carrier of opaque wire units.
///
/// The model: `incoming` is the sequence of events the peer's side holds in
/// store for this channel — a message, or a transport fault standing in its
/// place — after which the stream is closed; `sent` is the sequence of wire
/// units delivered to the peer so far; `accepts` says which wire units a send
/// would deliver. Sends are delivered in call order, and receives observe the
/// peer's events in order: no reordering, no loss short of closure or fault.
pub trait Channel: Sized {
    type Wire;

    spec fn incoming(&self) -> Seq<WireEvent<Self::Wire>>;

    spec fn sent(&self) -> Seq<Self::Wire>;

    spec fn accepts(&self, data: Self::Wire) -> bool;

    /// Whether a send the channel refuses fails as `Closed` — the peer ended
    /// the stream, closure being the sole cancellation mechanism — rather
    /// than as a transport fault.
    spec fn rejects_as_closed(&self, data: Self::Wire) -> bool;

    /// Receive the next event: the next message, `Closed` once the incoming
    /// events are exhausted, or `Transport` where a fault stands.
    fn recv(&mut self) -> (r: Result<Self::Wire, ChannelError>)
        ensures
            final(self).sent() == old(self).sent(),
            forall|d: Self::Wire| #[trigger] final(self).accepts(d) == old(self).accepts(d),
            forall|d: Self::Wire| #[trigger] final(self).rejects_as_closed(d)
                == old(self).rejects_as_closed(d),
            match r {
                Ok(w) => old(self).incoming().len() > 0
                    && old(self).incoming()[0] == WireEvent::Msg(w)
                    && final(self).incoming() == old(self).incoming().skip(1),
                Err(ChannelError::Closed) => old(self).incoming().len() == 0
                    && final(self).incoming() == old(self).incoming(),
                Err(ChannelError::Transport(_)) => old(self).incoming().len() > 0
                    && old(self).incoming()[0] is Fault
                    && final(self).incoming() == old(self).incoming().skip(1),
            },
    ;

    /// Send one wire unit: delivered exactly when the channel accepts it. A
    /// refusal keeps the closed/transport distinction: `Closed` exactly where
    /// the channel rejects because the peer ended the stream.
    fn send(&mut self, data: Self::Wire) -> (r: Result<(), ChannelError>)
        ensures
            final(self).incoming() == old(self).incoming(),
            forall|d: Self::Wire| #[trigger] final(self).accepts(d) == old(self).accepts(d),
            forall|d: Self::Wire| #[trigger] final(self).rejects_as_closed(d)
                == old(self).rejects_as_closed(d),
            match r {
                Ok(()) => old(self).accepts(data)
                    && final(self).sent() == old(self).sent().push(data),
                Err(ChannelError::Closed) => !old(self).accepts(data)
                    && old(self).rejects_as_closed(data)
                    && final(self).sent() == old(self).sent(),
                Err(ChannelError::Transport(_)) => !old(self).accepts(data)
                    && !old(self).rejects_as_closed(data)
                    && final(self).sent() == old(self).sent(),
            },
    ;

    /// Chain a codec onto this channel. The composition is itself a channel,
    /// over the codec's inner representation, so codecs layer indefinitely.
    fn with_codec<Co: Codec>(self, codec: Co) -> (r: WithCodec<Self, Co>)
        ensures
            r.channel == self,
            r.codec == codec,
    {
        WithCodec { channel: self, codec }
    }
}

/// A channel decorated with a codec: outgoing payloads pass through the
/// codec's encode step, incoming wire units through its decode step; either
/// failure surfaces as a channel-level transport fault carrying the codec's
/// name.
pub struct WithCodec<Ch, Co> {
    pub channel: Ch,
    pub codec: Co,
}

/// How one incoming event of the inner channel looks through a codec: a
/// message that decodes passes through; one that does not, and a fault,
/// surface as a fault.
pub open spec fn decoded_event<Co: Codec>(codec: Co, e: WireEvent<Co::Out>) -> WireEvent<Co::In> {
    match e {
        WireEvent::Msg(w) => match codec.dec(w) {
            Some(x) => WireEvent::Msg(x),
            None => WireEvent::Fault,
        },
        WireEvent::Fault => WireEvent::Fault,
    }
}

impl<Ch, Co> Channel for WithCodec<Ch, Co>
where
    Ch: Channel<Wire = <Co as Codec>::Out>,
    Co: Codec,
{
    type Wire = <Co as Codec>::In;

    open spec fn incoming(&self) -> Seq<WireEvent<<Co as Codec>::In>> {
        self.channel.incoming().map(|i: int, e: WireEvent<<Co as Codec>::Out>| decoded_event(self.codec, e))
    }

    open spec fn sent(&self) -> Seq<<Co as Codec>::In> {
        self.channel.sent().map(|i: int, w: <Co as Codec>::Out| self.codec.dec(w).unwrap())
    }

    open spec fn accepts(&self, data: <Co as Codec>::In) -> bool {
        self.codec.enc(data) matches Some(w) && self.channel.accepts(w)
    }

    open spec fn rejects_as_closed(&self, data: <Co as Codec>::In) -> bool {
        self.codec.enc(data) matches Some(w) && self.channel.rejects_as_closed(w)
    }

    fn recv(&mut self) -> (r: Result<<Co as Codec>::In, ChannelError>)
        // Beyond the channel contract: a transport fault raised here for a
        // message the codec does not decode carries the codec's name.
        ensures
            match r {
                Err(ChannelError::Transport(c)) => {
                    &&& old(self).channel.incoming().len() > 0
                    &&& old(self).channel.incoming()[0] matches WireEvent::Msg(w)
                        ==> old(self).codec.dec(w) is None && c.layers@.len() == 2
                            && c.layers@[1]@ == old(self).codec.name_spec()
                },
                _ => true,
            },
    {
        let data = match self.channel.recv() {
            Ok(d) => d,
            Err(e) => {
                proof {
                    lemma_composed_views(*old(self), *self);
                }
                return Err(e);
            },
        };
        match self.codec.decode(data) {
            Ok(x) => {
                proof {
                    lemma_composed_views(*old(self), *self);
                }
                Ok(x)
            },
            Err(ce) => {
                proof {
                    lemma_composed_views(*old(self), *self);
                }
                Err(ce.into_transport())
            },
        }
    }

    fn send(&mut self, data: <Co as Codec>::In) -> (r: Result<(), ChannelError>)
        // Beyond the channel contract: every delivered payload reaches the
        // inner channel exactly as the codec's encoding of it; an encode
        // failure surfaces as a transport fault carrying the codec's name,
        // with nothing reaching the wire; an inner refusal passes through
        // with its closed/transport mode unchanged.
        ensures
            final(self).channel.incoming() == old(self).channel.incoming(),
            match old(self).codec.enc(data) {
                None => {
                    &&& final(self).channel.sent() == old(self).channel.sent()
                    &&& r matches Err(ChannelError::Transport(c))
                    &&& c.layers@.len() == 2
                    &&& c.layers@[1]@ == old(self).codec.name_spec()
                },
                Some(out) => if old(self).channel.accepts(out) {
                    &&& r == Ok::<(), ChannelError>(())
                    &&& final(self).channel.sent() == old(self).channel.sent().push(out)
                } else {
                    &&& final(self).channel.sent() == old(self).channel.sent()
                    &&& !(r is Ok)
                    &&& (r matches Err(ChannelError::Closed) <==> old(
                        self,
                    ).channel.rejects_as_closed(out))
                },
            },
    {
        let ghost payload = data;
        let encoded = match self.codec.encode(data) {
            Ok(w) => w,
            Err(ce) => {
                proof {
                    lemma_composed_views(*old(self), *self);
                }
                return Err(ce.into_transport());
            },
        };
        match self.channel.send(encoded) {
            Ok(()) => {
                proof {
                    old(self).codec.lemma_round_trip(payload);
                    lemma_composed_views(*old(self), *self);
                    assert(self.sent() =~= old(self).sent().push(payload));
                }
                Ok(())
            },
            Err(e) => {
                proof {
                    lemma_composed_views(*old(self), *self);
                }
                Err(e)
            },
        }
    }
}

/// One composed layer is lossless: the wire unit that a composed channel's
/// send produces for an accepted payload is seen by the composed recv as that
/// payload itself, never as a fault. Chained onto the round-trip law of each
/// layer's codec, this carries a payload intact through any depth of
/// composition.
pub proof fn lemma_composed_round_trip<Co: Codec>(codec: Co, x: Co::In)
    requires
        codec.enc(x) is Some,
    ensures
        decoded_event(codec, WireEvent::Msg(codec.enc(x).unwrap())) == WireEvent::Msg(x),
{
    codec.lemma_round_trip(x);
}

/// The views of a composed channel follow its parts: with the codec's
/// transform unchanged, the composed views are the pointwise images of the
/// inner views, so an unchanged inner view, or one that lost its first
/// event, gives the same at the composed level.
proof fn lemma_composed_views<Ch, Co>(pre: WithCodec<Ch, Co>, post: WithCodec<Ch, Co>)
    where
        Ch: Channel<Wire = <Co as Codec>::Out>,
        Co: Codec,
    requires
        forall|x: <Co as Codec>::In| #[trigger] post.codec.enc(x) == pre.codec.enc(x),
        forall|y: <Co as Codec>::Out| #[trigger] post.codec.dec(y) == pre.codec.dec(y),
    ensures
        pre.incoming().len() == pre.channel.incoming().len(),
        forall|i: int| 0 <= i < pre.channel.incoming().len()
            ==> pre.incoming()[i] == decoded_event(pre.codec, #[trigger] pre.channel.incoming()[i]),
        post.channel.incoming() == pre.channel.incoming() ==> post.incoming() == pre.incoming(),
        pre.channel.incoming().len() > 0 && post.channel.incoming() == pre.channel.incoming().skip(1)
            ==> post.incoming() == pre.incoming().skip(1),
        post.channel.sent() == pre.channel.sent() ==> post.sent() == pre.sent(),
        (forall|d: <Co as Codec>::Out| #[trigger] post.channel.accepts(d) == pre.channel.accepts(d))
            ==> (forall|d: <Co as Codec>::In| #[trigger] post.accepts(d) == pre.accepts(d)),
        (forall|d: <Co as Codec>::Out| #[trigger] post.channel.rejects_as_closed(d)
            == pre.channel.rejects_as_closed(d)) ==> (forall|d: <Co as Codec>::In| #[trigger]
        post.rejects_as_closed(d) == pre.rejects_as_closed(d)),
{
    assert forall|e: WireEvent<<Co as Codec>::Out>| #[trigger] decoded_event(post.codec, e)
        == decoded_event(pre.codec, e) by {
        match e {
            WireEvent::Msg(w) => {
                assert(post.codec.dec(w) == pre.codec.dec(w));
            },
            WireEvent::Fault => {},
        }
    }
    if post.channel.incoming() == pre.channel.incoming() {
        assert(post.incoming() =~= pre.incoming());
    }
    if pre.channel.incoming().len() > 0 && post.channel.incoming() == pre.channel.incoming().skip(
        1,
    ) {
        assert forall|i: int| 0 <= i < post.incoming().len() implies post.incoming()[i]
            == pre.incoming().skip(1)[i] by {
            assert(post.channel.incoming()[i] == pre.channel.incoming()[i + 1]);
            assert(pre.incoming().skip(1)[i] == pre.incoming()[i + 1]);
        }
        assert(post.incoming() =~= pre.incoming().skip(1));
    }
    if post.channel.sent() == pre.channel.sent() {
        assert forall|i: int| 0 <= i < post.sent().len() implies post.sent()[i] == pre.sent()[i] by {
            assert(post.codec.dec(post.channel.sent()[i]) == pre.codec.dec(
                pre.channel.sent()[i],
            ));
        }
        assert(post.sent() =~= pre.sent());
    }
    if forall|d: <Co as Codec>::Out| #[trigger] post.channel.accepts(d) == pre.channel.accepts(d) {
        assert forall|d: <Co as Codec>::In| #[trigger] post.accepts(d) == pre.accepts(d) by {
            match post.codec.enc(d) {
                Some(w) => {
                    assert(post.channel.accepts(w) == pre.channel.accepts(w));
                },
                None => {},
            }
        }
    }
    if forall|d: <Co as Codec>::Out| #[trigger] post.channel.rejects_as_closed(d)
        == pre.channel.rejects_as_closed(d) {
        assert forall|d: <Co as Codec>::In| #[trigger] post.rejects_as_closed(d)
            == pre.rejects_as_closed(d) by {
            match post.codec.enc(d) {
                Some(w) => {
                    assert(post.channel.rejects_as_closed(w) == pre.channel.rejects_as_closed(w));
                },
                None => {},
            }
        }
    }
}

} // verus!
