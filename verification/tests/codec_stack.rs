use flute::loopback::{DirectFormat, FrameCodec, MemChannel, NOT_FRAMED_DETAIL, WRONG_TAG_DETAIL};
use flute::rpc::{RPC, RpcError};
use flute::traits::{Channel, ChannelError, Codec, WireEvent};
use flute::value::Value;

fn int_value(n: i64) -> Value {
    Value::Int(n)
}

fn tagged(tag: u64, body: Value) -> Value {
    Value::Tagged(tag, Box::new(body))
}

#[test]
fn codec_encode_wraps_and_decode_unwraps() {
    let mut codec = FrameCodec { tag: 3 };
    assert_eq!(codec.name(), "frame");
    let wire = codec.encode(int_value(1)).unwrap();
    assert_eq!(wire, tagged(3, int_value(1)));
    assert_eq!(codec.decode(wire).unwrap(), int_value(1));
}

#[test]
fn codec_rejects_wrong_tag_with_its_name() {
    let mut codec = FrameCodec { tag: 3 };
    let err = codec.decode(tagged(4, int_value(1))).unwrap_err();
    assert_eq!(err.codec, "frame");
    assert_eq!(err.detail, WRONG_TAG_DETAIL);
    let err = codec.decode(int_value(9)).unwrap_err();
    assert_eq!(err.codec, "frame");
    assert_eq!(err.detail, NOT_FRAMED_DETAIL);
}

#[test]
fn chain_depth_zero_round_trip() {
    let mut ch = MemChannel::new(vec![]);
    assert!(ch.send(int_value(42)).is_ok());
    let wire = ch.outbox.remove(0);
    let mut back = MemChannel::new(vec![WireEvent::Msg(wire)]);
    assert_eq!(back.recv().unwrap(), int_value(42));
}

#[test]
fn chain_depth_one_round_trip() {
    let mut ch = MemChannel::new(vec![]).with_codec(FrameCodec { tag: 7 });
    assert!(ch.send(int_value(42)).is_ok());
    let wire = ch.channel.outbox.remove(0);
    assert_eq!(wire, tagged(7, int_value(42)));
    let mut back =
        MemChannel::new(vec![WireEvent::Msg(wire)]).with_codec(FrameCodec { tag: 7 });
    assert_eq!(back.recv().unwrap(), int_value(42));
}

#[test]
fn chain_depth_two_round_trip() {
    let mut ch = MemChannel::new(vec![])
        .with_codec(FrameCodec { tag: 7 })
        .with_codec(FrameCodec { tag: 9 });
    assert!(ch.send(int_value(42)).is_ok());
    let wire = ch.channel.channel.outbox.remove(0);
    assert_eq!(wire, tagged(7, tagged(9, int_value(42))));
    let mut back = MemChannel::new(vec![WireEvent::Msg(wire)])
        .with_codec(FrameCodec { tag: 7 })
        .with_codec(FrameCodec { tag: 9 });
    assert_eq!(back.recv().unwrap(), int_value(42));
}

#[test]
fn chain_depth_three_round_trip() {
    let mut ch = MemChannel::new(vec![])
        .with_codec(FrameCodec { tag: 1 })
        .with_codec(FrameCodec { tag: 2 })
        .with_codec(FrameCodec { tag: 3 });
    assert!(ch.send(int_value(-5)).is_ok());
    let wire = ch.channel.channel.channel.outbox.remove(0);
    assert_eq!(wire, tagged(1, tagged(2, tagged(3, int_value(-5)))));
    let mut back = MemChannel::new(vec![WireEvent::Msg(wire)])
        .with_codec(FrameCodec { tag: 1 })
        .with_codec(FrameCodec { tag: 2 })
        .with_codec(FrameCodec { tag: 3 });
    assert_eq!(back.recv().unwrap(), int_value(-5));
}

#[test]
fn composed_decode_failure_is_transport_with_codec_name() {
    // The incoming wire unit is no frame: the codec's failure surfaces as a
    // channel-level transport fault that names the codec.
    let mut ch =
        MemChannel::new(vec![WireEvent::Msg(int_value(1))]).with_codec(FrameCodec { tag: 7 });
    match ch.recv() {
        Err(ChannelError::Transport(cause)) => {
            assert!(cause.layers.contains(&"frame"));
        }
        other => panic!("expected a transport fault, got {:?}", other),
    }
}

#[test]
fn composed_channel_is_a_channel_for_sessions() {
    // A session runs unchanged over a composed channel: the reply appears
    // framed on the inner channel.
    let request = tagged(flute::calc::PING_TAG, Value::Unit);
    let inner = MemChannel::new(vec![WireEvent::Msg(tagged(5, request))]);
    let mut rpc = RPC::new(inner.with_codec(FrameCodec { tag: 5 }), DirectFormat);
    let r = rpc.serve(flute::loopback::Calculator);
    assert!(r.is_ok());
    assert_eq!(rpc.channel.channel.outbox, vec![tagged(5, Value::Unit)]);
}

#[test]
fn transport_fault_error_mapping_keeps_context() {
    let mut ch: MemChannel<Value> = MemChannel::new(vec![WireEvent::Fault]);
    match ch.recv() {
        Err(ChannelError::Transport(cause)) => {
            let e = RpcError::from_channel(ChannelError::Transport(cause));
            match e {
                RpcError::Other(c) => assert!(c.layers.contains(&"channel error")),
                other => panic!("expected Other, got {:?}", other),
            }
        }
        other => panic!("expected a transport fault, got {:?}", other),
    }
}

#[test]
fn channel_send_failures_keep_the_closed_transport_distinction() {
    let mut closed: MemChannel<Value> = MemChannel::peer_closed(vec![]);
    assert!(matches!(closed.send(int_value(1)), Err(ChannelError::Closed)));
    let mut faulty: MemChannel<Value> = MemChannel::unreliable(vec![]);
    assert!(matches!(faulty.send(int_value(1)), Err(ChannelError::Transport(_))));
    assert!(closed.outbox.is_empty());
    assert!(faulty.outbox.is_empty());
}

#[test]
fn composed_send_passes_inner_closed_through() {
    // The peer of the inner channel has closed: the composed channel reports
    // Closed unchanged, not a transport fault.
    let mut ch = MemChannel::peer_closed(vec![]).with_codec(FrameCodec { tag: 7 });
    assert!(matches!(ch.send(int_value(1)), Err(ChannelError::Closed)));
    assert!(ch.channel.outbox.is_empty());
}

#[test]
fn closed_maps_to_channel_closed() {
    let e = RpcError::from_channel(ChannelError::Closed);
    assert!(matches!(e, RpcError::ChannelClosed));
}
