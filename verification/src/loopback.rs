use crate::calc::{CalcHandler, Pong};
use crate::traits::{Cause, Channel, ChannelError, Codec, CodecError, DataFormat, WireEvent};
use crate::value::Value;
use vstd::prelude::*;

verus! {

/// The failure detail of a scripted transport fault.
pub const FAULT_DETAIL: &'static str = "injected transport fault";

/// The failure detail of a send on an unreliable channel double.
pub const REFUSED_DETAIL: &'static str = "send refused";

/// The failure detail of a frame carrying another codec's tag.
pub const WRONG_TAG_DETAIL: &'static str = "frame tag mismatch";

/// The failure detail of a wire unit that is no frame at all.
pub const NOT_FRAMED_DETAIL: &'static str = "not a frame";

/// The failure detail of a sum that leaves the machine integer range.
pub const OVERFLOW_DETAIL: &'static str = "sum out of range";

/// How a channel double disposes of sends: delivered, refused because the
/// peer ended the stream, or refused with a transport fault.
#[derive(Debug, Clone, Copy, PartialEq, Eq, Structural)]
pub enum SendMode {
    Deliver,
    RefuseClosed,
    RefuseFault,
}

/// An in-memory channel double: its incoming side is scripted up front — the
/// events the peer will have delivered before closing — and everything sent
/// is kept for inspection. `send_mode` scripts how sends are disposed of.
pub struct MemChannel<W> {
    pub inbox: Vec<WireEvent<W>>,
    pub outbox: Vec<W>,
    pub send_mode: SendMode,
}

impl<W> MemChannel<W> {
    pub fn new(inbox: Vec<WireEvent<W>>) -> (r: MemChannel<W>)
        ensures
            r.inbox@ == inbox@,
            r.outbox@ == Seq::<W>::empty(),
            r.send_mode == SendMode::Deliver,
    {
        MemChannel { inbox, outbox: Vec::new(), send_mode: SendMode::Deliver }
    }

    /// A channel double whose sends fail with a transport fault, for fault
    /// injection.
    pub fn unreliable(inbox: Vec<WireEvent<W>>) -> (r: MemChannel<W>)
        ensures
            r.inbox@ == inbox@,
            r.outbox@ == Seq::<W>::empty(),
            r.send_mode == SendMode::RefuseFault,
    {
        MemChannel { inbox, outbox: Vec::new(), send_mode: SendMode::RefuseFault }
    }

    /// A channel double whose peer has ended the stream: sends report
    /// `Closed`.
    pub fn peer_closed(inbox: Vec<WireEvent<W>>) -> (r: MemChannel<W>)
        ensures
            r.inbox@ == inbox@,
            r.outbox@ == Seq::<W>::empty(),
            r.send_mode == SendMode::RefuseClosed,
    {
        MemChannel { inbox, outbox: Vec::new(), send_mode: SendMode::RefuseClosed }
    }

    /// The wire units delivered so far, in send order.
    pub fn delivered(&self) -> (r: &Vec<W>)
        ensures
            r@ == self.sent(),
    {
        &self.outbox
    }
}

impl<W> Channel for MemChannel<W> {
    type Wire = W;

    open spec fn incoming(&self) -> Seq<WireEvent<W>> {
        self.inbox@
    }

    open spec fn sent(&self) -> Seq<W> {
        self.outbox@
    }

    open spec fn accepts(&self, data: W) -> bool {
        self.send_mode is Deliver
    }

    open spec fn rejects_as_closed(&self, data: W) -> bool {
        self.send_mode is RefuseClosed
    }

    fn recv(&mut self) -> (r: Result<W, ChannelError>) {
        if self.inbox.len() == 0 {
            return Err(ChannelError::Closed);
        }
        let e = self.inbox.remove(0);
        proof {
            assert(self.inbox@ =~= old(self).inbox@.skip(1));
        }
        match e {
            WireEvent::Msg(w) => Ok(w),
            WireEvent::Fault => Err(ChannelError::Transport(Cause::new(FAULT_DETAIL))),
        }
    }

    fn send(&mut self, data: W) -> (r: Result<(), ChannelError>) {
        match self.send_mode {
            SendMode::Deliver => {
                self.outbox.push(data);
                Ok(())
            },
            SendMode::RefuseClosed => Err(ChannelError::Closed),
            SendMode::RefuseFault => Err(ChannelError::Transport(Cause::new(REFUSED_DETAIL))),
        }
    }
}

/// A framing codec double over the value universe: encoding wraps the payload
/// under the codec's tag; decoding unwraps exactly that tag and rejects
/// anything else. Its inner and outer representations coincide, so frames
/// chain onto a channel indefinitely.
pub struct FrameCodec {
    pub tag: u64,
}

impl Codec for FrameCodec {
    type In = Value;

    type Out = Value;

    open spec fn name_spec(&self) -> Seq<char> {
        "frame"@
    }

    open spec fn enc(&self, data: Value) -> Option<Value> {
        Some(Value::Tagged(self.tag, Box::new(data)))
    }

    open spec fn dec(&self, data: Value) -> Option<Value> {
        match data {
            Value::Tagged(t, body) => if t == self.tag {
                Some(*body)
            } else {
                None
            },
            _ => None,
        }
    }

    fn name(&self) -> (r: &'static str) {
        "frame"
    }

    fn encode(&mut self, data: Value) -> (r: Result<Value, CodecError>) {
        Ok(Value::Tagged(self.tag, Box::new(data)))
    }

    fn decode(&mut self, data: Value) -> (r: Result<Value, CodecError>) {
        match data {
            Value::Tagged(t, body) => if t == self.tag {
                Ok(*body)
            } else {
                Err(CodecError { codec: "frame", detail: WRONG_TAG_DETAIL })
            },
            _ => Err(CodecError { codec: "frame", detail: NOT_FRAMED_DETAIL }),
        }
    }

    proof fn lemma_round_trip(&self, data: Value) {
    }
}

/// A chain of frame codecs applied to a payload, outermost layer first: the
/// wire unit that a stack of composed channels sends for it.
pub open spec fn chain_enc(tags: Seq<u64>, v: Value) -> Value
    decreases tags.len(),
{
    if tags.len() == 0 {
        v
    } else {
        Value::Tagged(tags[0], Box::new(chain_enc(tags.skip(1), v)))
    }
}

/// The inverse chain: peel each tag in the same order.
pub open spec fn chain_dec(tags: Seq<u64>, w: Value) -> Option<Value>
    decreases tags.len(),
{
    if tags.len() == 0 {
        Some(w)
    } else {
        match w {
            Value::Tagged(t, body) => if t == tags[0] {
                chain_dec(tags.skip(1), *body)
            } else {
                None
            },
            _ => None,
        }
    }
}

/// The round-trip law of codec chains of any length: however many frame
/// codecs are layered onto a channel, decoding what the stack encoded yields
/// the original payload.
pub proof fn lemma_chain_round_trip(tags: Seq<u64>, v: Value)
    ensures
        chain_dec(tags, chain_enc(tags, v)) == Some(v),
    decreases tags.len(),
{
    if tags.len() == 0 {
    } else {
        lemma_chain_round_trip(tags.skip(1), v);
    }
}

/// Each composed layer peels exactly one link of the chain: through a frame
/// codec whose tag heads the chain, the wire unit of the whole chain is seen
/// as the wire unit of the rest of the chain — never as a fault. Applied at
/// every layer of a stack of composed channels, a chained payload therefore
/// comes back out whole.
pub proof fn lemma_layer_peels_chain(codec: FrameCodec, tags: Seq<u64>, v: Value)
    requires
        tags.len() > 0,
        codec.tag == tags[0],
    ensures
        crate::traits::decoded_event(codec, WireEvent::Msg(chain_enc(tags, v)))
            == WireEvent::Msg(chain_enc(tags.skip(1), v)),
{
}

/// A data format double that carries values through unchanged: its wire
/// representation is the value universe itself.
pub struct DirectFormat;

impl DataFormat for DirectFormat {
    type Repr = Value;

    open spec fn enc(&self, v: Value) -> Option<Value> {
        Some(v)
    }

    open spec fn dec(&self, data: Value) -> Option<Value> {
        Some(data)
    }

    fn encode(&mut self, value: Value) -> (r: Result<Value, Cause>) {
        Ok(value)
    }

    fn decode(&mut self, data: Value) -> (r: Result<Value, Cause>) {
        Ok(data)
    }

    proof fn lemma_round_trip(&self, v: Value) {
    }
}

/// A handler double for the demonstration service: `ping` answers `Pong`, and
/// `add` answers the exact sum, failing precisely where the sum leaves the
/// machine integer range.
pub struct Calculator;

impl CalcHandler for Calculator {
    open spec fn ping_spec(&self) -> Option<Pong> {
        Some(Pong)
    }

    open spec fn add_spec(&self, a: i64, b: i64) -> Option<i64> {
        if i64::MIN <= a + b <= i64::MAX {
            Some((a + b) as i64)
        } else {
            None
        }
    }

    fn ping(&self) -> (r: Result<Pong, Cause>) {
        Ok(Pong)
    }

    fn add(&self, a: i64, b: i64) -> (r: Result<i64, Cause>) {
        match a.checked_add(b) {
            Some(n) => Ok(n),
            None => Err(Cause::new(OVERFLOW_DETAIL)),
        }
    }
}

} // verus!
