use flute::calc::{ADD_TAG, Calc, CalcRequest, PING_TAG, Pong};
use flute::loopback::{Calculator, DirectFormat, MemChannel};
use flute::rpc::{RPC, RpcError};
use flute::traits::WireEvent;
use flute::calc::CalcHandler;
use flute::value::{Value, Wireable};

fn int_value(n: i64) -> Value {
    Value::Int(n)
}

fn add_envelope(a: i64, b: i64) -> Value {
    Value::Tagged(
        ADD_TAG,
        Box::new(Value::Pair(Box::new(Value::Int(a)), Box::new(Value::Int(b)))),
    )
}

fn ping_envelope() -> Value {
    Value::Tagged(PING_TAG, Box::new(Value::Unit))
}

fn server(inbox: Vec<WireEvent<Value>>) -> RPC<MemChannel<Value>, DirectFormat> {
    RPC::new(MemChannel::new(inbox), DirectFormat)
}

#[test]
fn serve_three_requests_replies_in_order() {
    let mut rpc = server(vec![
        WireEvent::Msg(ping_envelope()),
        WireEvent::Msg(add_envelope(2, 3)),
        WireEvent::Msg(add_envelope(10, 20)),
    ]);
    let r = rpc.serve(Calculator);
    assert!(r.is_ok());
    assert_eq!(rpc.channel.delivered(), &vec![Value::Unit, int_value(5), int_value(30)]);
}

#[test]
fn serve_zero_requests_is_success() {
    let mut rpc = server(vec![]);
    let r = rpc.serve(Calculator);
    assert!(r.is_ok());
    assert!(rpc.channel.outbox.is_empty());
}

#[test]
fn handler_failure_ends_session_without_reply() {
    let mut rpc = server(vec![WireEvent::Msg(add_envelope(i64::MAX, 1)), WireEvent::Msg(
        ping_envelope(),
    )]);
    let r = rpc.serve(Calculator);
    assert!(matches!(r, Err(RpcError::HandlerError(_))));
    assert!(rpc.channel.outbox.is_empty());
}

#[test]
fn handler_failure_keeps_earlier_replies() {
    let mut rpc = server(vec![
        WireEvent::Msg(add_envelope(1, 2)),
        WireEvent::Msg(add_envelope(i64::MIN, -1)),
        WireEvent::Msg(ping_envelope()),
    ]);
    let r = rpc.serve(Calculator);
    assert!(matches!(r, Err(RpcError::HandlerError(_))));
    assert_eq!(rpc.channel.outbox, vec![int_value(3)]);
}

#[test]
fn transport_fault_is_other_not_channel_closed() {
    let mut rpc = server(vec![WireEvent::Fault]);
    let r = rpc.serve(Calculator);
    assert!(matches!(r, Err(RpcError::Other(_))));
    assert!(rpc.channel.outbox.is_empty());
}

#[test]
fn transport_fault_after_a_request_keeps_its_reply() {
    let mut rpc = server(vec![WireEvent::Msg(ping_envelope()), WireEvent::Fault]);
    let r = rpc.serve(Calculator);
    assert!(matches!(r, Err(RpcError::Other(_))));
    assert_eq!(rpc.channel.outbox, vec![Value::Unit]);
}

#[test]
fn undecodable_request_is_other() {
    let mut rpc = server(vec![WireEvent::Msg(int_value(42))]);
    let r = rpc.serve(Calculator);
    assert!(matches!(r, Err(RpcError::Other(_))));
    assert!(rpc.channel.outbox.is_empty());
}

#[test]
fn unknown_envelope_tag_is_other() {
    let mut rpc = server(vec![WireEvent::Msg(Value::Tagged(99, Box::new(Value::Unit)))]);
    let r = rpc.serve(Calculator);
    assert!(matches!(r, Err(RpcError::Other(_))));
    assert!(rpc.channel.outbox.is_empty());
}

#[test]
fn sessions_are_isolated() {
    let mut a = server(vec![WireEvent::Msg(add_envelope(2, 3))]);
    let mut b = server(vec![WireEvent::Msg(add_envelope(4, 4))]);
    let r = a.serve(Calculator);
    assert!(r.is_ok());
    assert_eq!(a.channel.outbox, vec![int_value(5)]);
    // Serving session A produced nothing on session B and consumed none of
    // its traffic.
    assert!(b.channel.outbox.is_empty());
    assert_eq!(b.channel.inbox.len(), 1);
    let r = b.serve(Calculator);
    assert!(r.is_ok());
    assert_eq!(b.channel.outbox, vec![int_value(8)]);
    assert_eq!(a.channel.outbox, vec![int_value(5)]);
}

#[test]
fn stub_add_observes_the_literal_result() {
    let mut stub = Calc::bind(RPC::new(
        MemChannel::new(vec![WireEvent::Msg(int_value(5))]),
        DirectFormat,
    ));
    let r = stub.add(2, 3);
    assert_eq!(r.unwrap(), 5);
    assert_eq!(stub.0.channel.outbox, vec![add_envelope(2, 3)]);
}

#[test]
fn stub_ping_observes_the_literal_response() {
    let mut stub = Calc::bind(RPC::new(
        MemChannel::new(vec![WireEvent::Msg(Value::Unit)]),
        DirectFormat,
    ));
    let r = stub.ping();
    assert_eq!(r.unwrap(), Pong);
    assert_eq!(stub.0.channel.outbox, vec![ping_envelope()]);
}

#[test]
fn stub_and_server_round_trip_by_shuttling_wire_units() {
    // The stub sends its envelope; with no reply scripted yet the call ends
    // with the orderly close.
    let mut stub = Calc::bind(RPC::new(MemChannel::new(vec![]), DirectFormat));
    let r = stub.add(2, 3);
    assert!(matches!(r, Err(RpcError::ChannelClosed)));
    let request = stub.0.channel.outbox.remove(0);

    // The server answers that very envelope.
    let mut rpc = server(vec![WireEvent::Msg(request)]);
    assert!(rpc.serve(Calculator).is_ok());
    let reply = rpc.channel.outbox.remove(0);

    // A stub whose channel carries the server's reply observes the literal 5.
    let mut stub = Calc::bind(RPC::new(
        MemChannel::new(vec![WireEvent::Msg(reply)]),
        DirectFormat,
    ));
    assert_eq!(stub.add(2, 3).unwrap(), 5);
}

#[test]
fn stub_send_refused_is_an_error_without_delivery() {
    let mut stub = Calc::bind(RPC::new(MemChannel::unreliable(vec![]), DirectFormat));
    let r = stub.add(2, 3);
    assert!(matches!(r, Err(RpcError::Other(_))));
    assert!(stub.0.channel.outbox.is_empty());
}

#[test]
fn session_send_then_recv_round_trips_a_value() {
    let mut sender = RPC::new(MemChannel::new(vec![]), DirectFormat);
    assert!(sender.send(7i64).is_ok());
    let wire = sender.channel.outbox.remove(0);
    let mut receiver = RPC::new(MemChannel::new(vec![WireEvent::Msg(wire)]), DirectFormat);
    assert_eq!(receiver.recv::<i64>().unwrap(), 7);
}

#[test]
fn session_recv_on_closed_channel_is_channel_closed() {
    let mut rpc = RPC::new(MemChannel::new(vec![]), DirectFormat);
    assert!(matches!(rpc.recv::<i64>(), Err(RpcError::ChannelClosed)));
}

#[test]
fn stub_send_on_peer_closed_channel_is_channel_closed() {
    let mut stub = Calc::bind(RPC::new(MemChannel::peer_closed(vec![]), DirectFormat));
    let r = stub.add(2, 3);
    assert!(matches!(r, Err(RpcError::ChannelClosed)));
    assert!(stub.0.channel.outbox.is_empty());
}

#[test]
fn serve_reply_refused_by_closed_peer_is_channel_closed() {
    let mut rpc = RPC::new(
        MemChannel::peer_closed(vec![WireEvent::Msg(ping_envelope())]),
        DirectFormat,
    );
    let r = rpc.serve(Calculator);
    assert!(matches!(r, Err(RpcError::ChannelClosed)));
    assert!(rpc.channel.outbox.is_empty());
}

#[test]
fn serve_reply_refused_by_fault_is_other() {
    let mut rpc = RPC::new(
        MemChannel::unreliable(vec![WireEvent::Msg(ping_envelope())]),
        DirectFormat,
    );
    let r = rpc.serve(Calculator);
    assert!(matches!(r, Err(RpcError::Other(_))));
    assert!(rpc.channel.outbox.is_empty());
}

#[test]
fn envelope_round_trips_through_the_value_universe() {
    let add = CalcRequest::Add { a: -7, b: 9 };
    assert_eq!(CalcRequest::of_value(&add.to_value()), Some(CalcRequest::Add { a: -7, b: 9 }));
    let ping = CalcRequest::Ping {};
    assert_eq!(CalcRequest::of_value(&ping.to_value()), Some(CalcRequest::Ping {}));
    assert_eq!(Pong::of_value(&Pong.to_value()), Some(Pong));
    assert_eq!(i64::of_value(&(-3i64).to_value()), Some(-3));
    assert_eq!(CalcRequest::of_value(&int_value(1)), None);
}

#[test]
fn calculator_adds_exactly_and_fails_on_overflow() {
    assert_eq!(Calculator.add(2, 3).unwrap(), 5);
    assert_eq!(Calculator.add(-10, 4).unwrap(), -6);
    assert!(Calculator.add(i64::MAX, 1).is_err());
    assert!(Calculator.add(i64::MIN, -1).is_err());
    assert_eq!(Calculator.ping().unwrap(), Pong);
}
