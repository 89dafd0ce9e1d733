use std::collections::BTreeMap;
use std::collections::VecDeque;

use mina_node_core::p2p_network::{
    P2pLimits, P2pNetworkAction, P2pNetworkAuthState, P2pNetworkConnectionError,
    P2pNetworkConnectionMuxState, P2pNetworkConnectionState, P2pNetworkNoiseAction,
    P2pNetworkNoiseState, P2pNetworkSchedulerAction, P2pNetworkSchedulerState, P2pNetworkStreams,
};
use mina_node_core::yamux::actions::{P2pNetworkYamuxAction, YamuxPing};
use mina_node_core::yamux::frame::{
    decode_frame, YamuxFlags, YamuxFrame, YamuxFrameDecode, YamuxFrameInner, YamuxFrameParseError,
    YamuxSessionError,
};
use mina_node_core::yamux::reducer::YamuxReducerError;
use mina_node_core::yamux::state::{P2pNetworkYamuxState, YamuxStreamState};

fn no_flags() -> YamuxFlags {
    YamuxFlags { syn: false, ack: false, fin: false, rst: false }
}

fn data_frame(stream_id: u32, payload: Vec<u8>) -> YamuxFrame {
    YamuxFrame { flags: no_flags(), stream_id, inner: YamuxFrameInner::Data(payload) }
}

/// A scheduler with one authenticated connection whose session has one
/// stream.
fn scheduler_with_stream(
    addr: u64,
    stream_id: u32,
    stream: YamuxStreamState,
) -> P2pNetworkSchedulerState {
    let mut session = P2pNetworkYamuxState::new(1024 * 1024, 1024 * 1024);
    session.streams.insert(stream_id, stream);
    let mut connections = BTreeMap::new();
    connections.insert(
        addr,
        P2pNetworkConnectionState {
            auth: Some(P2pNetworkAuthState::Noise(P2pNetworkNoiseState { peer_id: Some(77) })),
            mux: Some(P2pNetworkConnectionMuxState::Yamux(session)),
            streams: P2pNetworkStreams::new(),
        },
    );
    P2pNetworkSchedulerState { connections, limits: P2pLimits { max_streams: Some(16) } }
}

fn session_of(scheduler: &P2pNetworkSchedulerState, addr: u64) -> &P2pNetworkYamuxState {
    match &scheduler.connections.get(&addr).unwrap().mux {
        Some(P2pNetworkConnectionMuxState::Yamux(s)) => s,
        None => panic!("no mux"),
    }
}

fn stream_of<'a>(
    scheduler: &'a P2pNetworkSchedulerState,
    addr: u64,
    stream_id: u32,
) -> &'a YamuxStreamState {
    session_of(scheduler, addr).streams.get(&stream_id).unwrap()
}

// --- codec round trips ---

#[test]
fn encode_then_decode_restores_a_data_frame() {
    let frame = YamuxFrame {
        flags: YamuxFlags { syn: true, ack: false, fin: true, rst: false },
        stream_id: 9,
        inner: YamuxFrameInner::Data(vec![1, 2, 3, 4, 5]),
    };
    let expected = YamuxFrame {
        flags: YamuxFlags { syn: true, ack: false, fin: true, rst: false },
        stream_id: 9,
        inner: YamuxFrameInner::Data(vec![1, 2, 3, 4, 5]),
    };
    let bytes = frame.into_bytes();
    assert_eq!(bytes.len(), 12 + 5);
    match decode_frame(&bytes, 0, 1024) {
        YamuxFrameDecode::Parsed { frame: decoded, consumed } => {
            assert_eq!(consumed, 17);
            assert_eq!(decoded, expected);
        },
        _ => panic!("expected a parsed frame"),
    }
}

#[test]
fn encode_then_decode_restores_control_frames() {
    let cases = vec![
        YamuxFrameInner::WindowUpdate { difference: -7 },
        YamuxFrameInner::WindowUpdate { difference: i32::MIN },
        YamuxFrameInner::Ping { opaque: 4242 },
        YamuxFrameInner::GoAway(Ok(())),
        YamuxFrameInner::GoAway(Err(YamuxSessionError::Protocol)),
        YamuxFrameInner::GoAway(Err(YamuxSessionError::Internal)),
    ];
    for inner in cases {
        let expected_inner = match &inner {
            YamuxFrameInner::WindowUpdate { difference } => YamuxFrameInner::WindowUpdate {
                difference: *difference,
            },
            YamuxFrameInner::Ping { opaque } => YamuxFrameInner::Ping { opaque: *opaque },
            YamuxFrameInner::GoAway(res) => YamuxFrameInner::GoAway(*res),
            _ => unreachable!(),
        };
        let frame = YamuxFrame { flags: no_flags(), stream_id: 3, inner };
        let bytes = frame.into_bytes();
        assert_eq!(bytes.len(), 12);
        match decode_frame(&bytes, 0, 1024) {
            YamuxFrameDecode::Parsed { frame: decoded, consumed } => {
                assert_eq!(consumed, 12);
                assert_eq!(decoded.stream_id, 3);
                assert_eq!(decoded.inner, expected_inner);
            },
            _ => panic!("expected a parsed frame"),
        }
    }
}

#[test]
fn decode_consumes_exactly_one_frame_and_reencodes_it() {
    // two frames back to back; decoding takes exactly the first
    let first = data_frame(1, vec![9, 9, 9]).into_bytes();
    let second = data_frame(2, vec![8]).into_bytes();
    let mut bytes = first.clone();
    bytes.extend_from_slice(&second);
    match decode_frame(&bytes, 0, 1024) {
        YamuxFrameDecode::Parsed { frame, consumed } => {
            assert_eq!(consumed, first.len());
            assert_eq!(frame.into_bytes(), first);
        },
        _ => panic!("expected a parsed frame"),
    }
}

#[test]
fn decode_reports_incomplete_and_errors() {
    assert!(matches!(
        decode_frame(&vec![0u8; 11], 0, 1024),
        YamuxFrameDecode::Incomplete
    ));
    // bad version byte
    let mut bytes = data_frame(1, vec![]).into_bytes();
    bytes[0] = 3;
    assert!(matches!(
        decode_frame(&bytes, 0, 1024),
        YamuxFrameDecode::Error(YamuxFrameParseError::Version(3))
    ));
    // unknown type byte
    let mut bytes = data_frame(1, vec![]).into_bytes();
    bytes[1] = 9;
    assert!(matches!(
        decode_frame(&bytes, 0, 1024),
        YamuxFrameDecode::Error(YamuxFrameParseError::Type(9))
    ));
    // unparseable flag bits
    let mut bytes = data_frame(1, vec![]).into_bytes();
    bytes[2] = 0xff;
    assert!(matches!(
        decode_frame(&bytes, 0, 1024),
        YamuxFrameDecode::Error(YamuxFrameParseError::Flags(_))
    ));
    // unknown session close code
    let mut bytes = YamuxFrame {
        flags: no_flags(),
        stream_id: 0,
        inner: YamuxFrameInner::GoAway(Ok(())),
    }
        .into_bytes();
    bytes[11] = 9;
    assert!(matches!(
        decode_frame(&bytes, 0, 1024),
        YamuxFrameDecode::Error(YamuxFrameParseError::ErrorCode(9))
    ));
}

#[test]
fn data_length_at_limit_is_accepted_and_one_more_is_oversize() {
    let limit = 64usize;
    let at_limit = data_frame(5, vec![7u8; 64]).into_bytes();
    assert!(matches!(
        decode_frame(&at_limit, 0, limit),
        YamuxFrameDecode::Parsed { .. }
    ));
    let over = data_frame(5, vec![7u8; 65]).into_bytes();
    assert!(matches!(decode_frame(&over, 0, limit), YamuxFrameDecode::Oversize));
}

// --- session scenarios ---

#[test]
fn splits_outgoing_data_on_the_window_boundary() {
    // window_theirs = 10, emit 25 bytes: 10 go out, 15 wait in the queue
    let addr = 1u64;
    let mut stream = YamuxStreamState::incoming();
    stream.window_theirs = 10;
    stream.established = true;
    let mut scheduler = scheduler_with_stream(addr, 3, stream);
    let mut dispatched: Vec<P2pNetworkAction> = Vec::new();
    let payload: Vec<u8> = (0..25u8).collect();
    let r = P2pNetworkYamuxState::reducer(
        &mut scheduler,
        P2pNetworkYamuxAction::OutgoingFrame { addr, frame: data_frame(3, payload) },
        0,
        &mut dispatched,
    );
    assert!(r.is_ok());
    let stream = stream_of(&scheduler, addr, 3);
    assert_eq!(stream.window_theirs, 0);
    assert_eq!(stream.pending.len(), 1);
    match &stream.pending[0].inner {
        YamuxFrameInner::Data(d) => assert_eq!(d.len(), 15),
        _ => panic!("queued frame should carry data"),
    }
    // the ten-byte prefix went to the encryption layer
    match &dispatched[0] {
        P2pNetworkAction::Noise(P2pNetworkNoiseAction::OutgoingData { data, .. }) => {
            assert_eq!(data.len(), 12 + 10);
        },
        _ => panic!("expected outgoing bytes"),
    }

    // a window grant of 20 releases the 15 queued bytes and leaves 5
    let wu = YamuxFrame {
        flags: no_flags(),
        stream_id: 3,
        inner: YamuxFrameInner::WindowUpdate { difference: 20 },
    };
    match &mut scheduler.connections.get_mut(&addr).unwrap().mux {
        Some(P2pNetworkConnectionMuxState::Yamux(session)) => {
            session.incoming.push_back(wu);
        },
        None => panic!("no mux"),
    }
    let mut dispatched2: Vec<P2pNetworkAction> = Vec::new();
    let wu_again = YamuxFrame {
        flags: no_flags(),
        stream_id: 3,
        inner: YamuxFrameInner::WindowUpdate { difference: 20 },
    };
    let r = P2pNetworkYamuxState::reducer(
        &mut scheduler,
        P2pNetworkYamuxAction::IncomingFrame { addr, frame: wu_again },
        0,
        &mut dispatched2,
    );
    assert!(r.is_ok());
    assert_eq!(stream_of(&scheduler, addr, 3).window_theirs, 20);
    assert_eq!(stream_of(&scheduler, addr, 3).pending.len(), 0);
    // the released frame travels as a follow-up send
    let released = dispatched2
        .iter()
        .find_map(|a| match a {
            P2pNetworkAction::Yamux(P2pNetworkYamuxAction::OutgoingFrame { frame, .. }) => {
                Some(frame)
            },
            _ => None,
        })
        .expect("released frame dispatched");
    match &released.inner {
        YamuxFrameInner::Data(d) => assert_eq!(d.len(), 15),
        _ => panic!("released frame should carry data"),
    }
    // sending it performs the window accounting: 20 - 15 = 5
    let mut dispatched3: Vec<P2pNetworkAction> = Vec::new();
    let released_again = YamuxFrame {
        flags: no_flags(),
        stream_id: 3,
        inner: YamuxFrameInner::Data((10..25u8).collect()),
    };
    let r = P2pNetworkYamuxState::reducer(
        &mut scheduler,
        P2pNetworkYamuxAction::OutgoingFrame { addr, frame: released_again },
        0,
        &mut dispatched3,
    );
    assert!(r.is_ok());
    assert_eq!(stream_of(&scheduler, addr, 3).window_theirs, 5);
}

#[test]
fn refills_the_receive_window_below_the_threshold() {
    // window_ours = 64 KiB; a one-byte frame brings it under the
    // threshold and triggers a refill grant
    let addr = 2u64;
    let mut stream = YamuxStreamState::incoming();
    stream.window_ours = 65536;
    stream.established = true;
    let mut scheduler = scheduler_with_stream(addr, 5, stream);
    match &mut scheduler.connections.get_mut(&addr).unwrap().mux {
        Some(P2pNetworkConnectionMuxState::Yamux(session)) => {
            session.incoming.push_back(data_frame(5, vec![42]));
        },
        None => panic!("no mux"),
    }
    let mut dispatched: Vec<P2pNetworkAction> = Vec::new();
    let r = P2pNetworkYamuxState::reducer(
        &mut scheduler,
        P2pNetworkYamuxAction::IncomingFrame { addr, frame: data_frame(5, vec![42]) },
        0,
        &mut dispatched,
    );
    assert!(r.is_ok());
    assert_eq!(stream_of(&scheduler, addr, 5).window_ours, 65535);
    let refill = dispatched
        .iter()
        .find_map(|a| match a {
            P2pNetworkAction::Yamux(P2pNetworkYamuxAction::OutgoingFrame { frame, .. }) => {
                match &frame.inner {
                    YamuxFrameInner::WindowUpdate { difference } => Some(*difference),
                    _ => None,
                }
            },
            _ => None,
        })
        .expect("refill grant dispatched");
    assert_eq!(refill, 262144);
    // sending the grant credits the receive window: 65535 + 262144
    let mut dispatched2: Vec<P2pNetworkAction> = Vec::new();
    let r = P2pNetworkYamuxState::reducer(
        &mut scheduler,
        P2pNetworkYamuxAction::OutgoingFrame {
            addr,
            frame: YamuxFrame {
                flags: no_flags(),
                stream_id: 5,
                inner: YamuxFrameInner::WindowUpdate { difference: 262144 },
            },
        },
        0,
        &mut dispatched2,
    );
    assert!(r.is_ok());
    assert_eq!(stream_of(&scheduler, addr, 5).window_ours, 327679);
}

#[test]
fn oversize_data_header_terminates_the_session() {
    // a Data header claiming more than the limit closes the session with
    // an internal error, even before the payload arrives
    let addr = 3u64;
    let mut scheduler = scheduler_with_stream(addr, 1, YamuxStreamState::incoming());
    match &mut scheduler.connections.get_mut(&addr).unwrap().mux {
        Some(P2pNetworkConnectionMuxState::Yamux(session)) => {
            session.message_size_limit = 1024 * 1024;
        },
        None => panic!("no mux"),
    }
    let mut header = data_frame(1, vec![]).into_bytes();
    // rewrite the length field to one byte over the limit
    let claimed: u32 = 1024 * 1024 + 1;
    header[8..12].copy_from_slice(&claimed.to_be_bytes());
    let mut dispatched: Vec<P2pNetworkAction> = Vec::new();
    let r = P2pNetworkYamuxState::reducer(
        &mut scheduler,
        P2pNetworkYamuxAction::IncomingData { addr, data: header },
        0,
        &mut dispatched,
    );
    assert!(r.is_ok());
    assert_eq!(
        session_of(&scheduler, addr).terminated,
        Some(Ok(Err(YamuxSessionError::Internal)))
    );
    assert!(dispatched.is_empty());
}

#[test]
fn goaway_terminates_gracefully_and_the_session_refuses_further_work() {
    let addr = 4u64;
    let mut scheduler = scheduler_with_stream(addr, 1, YamuxStreamState::incoming());
    let goaway = YamuxFrame {
        flags: no_flags(),
        stream_id: 0,
        inner: YamuxFrameInner::GoAway(Ok(())),
    };
    let bytes = goaway.into_bytes();
    let mut dispatched: Vec<P2pNetworkAction> = Vec::new();
    let r = P2pNetworkYamuxState::reducer(
        &mut scheduler,
        P2pNetworkYamuxAction::IncomingData { addr, data: bytes },
        0,
        &mut dispatched,
    );
    assert!(r.is_ok());
    // the parsed frame is queued and dispatched onward
    assert_eq!(dispatched.len(), 1);
    let mut dispatched2: Vec<P2pNetworkAction> = Vec::new();
    let goaway_again = YamuxFrame {
        flags: no_flags(),
        stream_id: 0,
        inner: YamuxFrameInner::GoAway(Ok(())),
    };
    // handling the frame sets the graceful termination
    let _ = P2pNetworkYamuxState::reducer(
        &mut scheduler,
        P2pNetworkYamuxAction::IncomingFrame { addr, frame: goaway_again },
        0,
        &mut dispatched2,
    );
    assert_eq!(session_of(&scheduler, addr).terminated, Some(Ok(Ok(()))));
    // once terminated, every further action is a no-op
    let mut dispatched3: Vec<P2pNetworkAction> = Vec::new();
    let r = P2pNetworkYamuxState::reducer(
        &mut scheduler,
        P2pNetworkYamuxAction::IncomingData { addr, data: data_frame(1, vec![1]).into_bytes() },
        0,
        &mut dispatched3,
    );
    assert!(r.is_ok());
    assert!(dispatched3.is_empty());
    assert_eq!(session_of(&scheduler, addr).buffer.len(), 0);
}

#[test]
fn pending_queue_overflow_raises_the_connection_error() {
    // limit 1 MiB, no window: the eleventh 100 KiB frame overflows
    let addr = 5u64;
    let mut stream = YamuxStreamState::incoming();
    stream.window_theirs = 0;
    stream.established = true;
    let mut scheduler = scheduler_with_stream(addr, 7, stream);
    let mut overflow_at = None;
    for i in 0..11u32 {
        let mut dispatched: Vec<P2pNetworkAction> = Vec::new();
        let r = P2pNetworkYamuxState::reducer(
            &mut scheduler,
            P2pNetworkYamuxAction::OutgoingFrame {
                addr,
                frame: data_frame(7, vec![0u8; 100 * 1024]),
            },
            0,
            &mut dispatched,
        );
        assert!(r.is_ok());
        let overflowed = dispatched.iter().any(|a| {
            matches!(
                a,
                P2pNetworkAction::Scheduler(P2pNetworkSchedulerAction::Error {
                    error: P2pNetworkConnectionError::YamuxOverflow(7),
                    ..
                })
            )
        });
        if overflowed {
            overflow_at = Some(i);
            break;
        }
    }
    assert_eq!(overflow_at, Some(10));
}

#[test]
fn ping_is_answered_with_a_pong_carrying_the_same_tag() {
    let addr = 6u64;
    let mut scheduler = scheduler_with_stream(addr, 0, YamuxStreamState::incoming());
    let ping = YamuxFrame {
        flags: no_flags(),
        stream_id: 0,
        inner: YamuxFrameInner::Ping { opaque: 1234 },
    };
    match &mut scheduler.connections.get_mut(&addr).unwrap().mux {
        Some(P2pNetworkConnectionMuxState::Yamux(session)) => {
            session.incoming.push_back(ping);
        },
        None => panic!("no mux"),
    }
    let mut dispatched: Vec<P2pNetworkAction> = Vec::new();
    let ping_again = YamuxFrame {
        flags: no_flags(),
        stream_id: 0,
        inner: YamuxFrameInner::Ping { opaque: 1234 },
    };
    let r = P2pNetworkYamuxState::reducer(
        &mut scheduler,
        P2pNetworkYamuxAction::IncomingFrame { addr, frame: ping_again },
        0,
        &mut dispatched,
    );
    assert!(r.is_ok());
    match &dispatched[0] {
        P2pNetworkAction::Yamux(P2pNetworkYamuxAction::OutgoingFrame { frame, .. }) => {
            assert!(frame.flags.ack);
            assert_eq!(frame.inner, YamuxFrameInner::Ping { opaque: 1234 });
        },
        _ => panic!("expected the pong"),
    }
}

#[test]
fn negative_window_update_reports_the_peer_error() {
    let addr = 7u64;
    let mut scheduler = scheduler_with_stream(addr, 2, YamuxStreamState::incoming());
    let wu = YamuxFrame {
        flags: no_flags(),
        stream_id: 2,
        inner: YamuxFrameInner::WindowUpdate { difference: i32::MIN },
    };
    match &mut scheduler.connections.get_mut(&addr).unwrap().mux {
        Some(P2pNetworkConnectionMuxState::Yamux(session)) => {
            session.incoming.push_back(wu);
        },
        None => panic!("no mux"),
    }
    let mut dispatched: Vec<P2pNetworkAction> = Vec::new();
    let wu_again = YamuxFrame {
        flags: no_flags(),
        stream_id: 2,
        inner: YamuxFrameInner::WindowUpdate { difference: i32::MIN },
    };
    let r = P2pNetworkYamuxState::reducer(
        &mut scheduler,
        P2pNetworkYamuxAction::IncomingFrame { addr, frame: wu_again },
        0,
        &mut dispatched,
    );
    assert!(r.is_ok());
    // the window saturated at zero rather than wrapping
    assert_eq!(stream_of(&scheduler, addr, 2).window_theirs, 0);
    assert!(dispatched.iter().any(|a| {
        matches!(
            a,
            P2pNetworkAction::Scheduler(P2pNetworkSchedulerAction::Error {
                error: P2pNetworkConnectionError::YamuxBadWindowUpdate(2),
                ..
            })
        )
    }));
}

#[test]
fn update_window_saturates_down_and_wraps_up() {
    let mut stream = YamuxStreamState::incoming();
    stream.window_theirs = 5;
    stream.update_window(false, -10);
    assert_eq!(stream.window_theirs, 0);
    stream.window_theirs = u32::MAX;
    stream.update_window(false, 1);
    assert_eq!(stream.window_theirs, 0);
    stream.window_ours = 100;
    stream.update_window(true, i32::MIN);
    assert_eq!(stream.window_ours, 0);
}

#[test]
fn missing_connection_and_stream_are_reported() {
    let mut scheduler = P2pNetworkSchedulerState {
        connections: BTreeMap::new(),
        limits: P2pLimits { max_streams: None },
    };
    let mut dispatched: Vec<P2pNetworkAction> = Vec::new();
    let r = P2pNetworkYamuxState::reducer(
        &mut scheduler,
        P2pNetworkYamuxAction::IncomingData { addr: 9, data: vec![] },
        0,
        &mut dispatched,
    );
    assert_eq!(r, Err(YamuxReducerError::ConnectionNotFound));

    let mut scheduler = scheduler_with_stream(9, 1, YamuxStreamState::incoming());
    let r = P2pNetworkYamuxState::reducer(
        &mut scheduler,
        P2pNetworkYamuxAction::OutgoingData {
            addr: 9,
            stream_id: 4,
            data: vec![1],
            flags: no_flags(),
        },
        0,
        &mut dispatched,
    );
    assert_eq!(r, Err(YamuxReducerError::StreamNotFound(4)));
}

#[test]
fn outgoing_data_adds_syn_on_a_fresh_local_stream() {
    let addr = 11u64;
    let fresh = YamuxStreamState {
        incoming: false,
        syn_sent: false,
        established: false,
        writable: true,
        window_ours: 262144,
        window_theirs: 262144,
        pending: VecDeque::new(),
    };
    let mut scheduler = scheduler_with_stream(addr, 1, fresh);
    let mut dispatched: Vec<P2pNetworkAction> = Vec::new();
    let r = P2pNetworkYamuxState::reducer(
        &mut scheduler,
        P2pNetworkYamuxAction::OutgoingData {
            addr,
            stream_id: 1,
            data: vec![5],
            flags: no_flags(),
        },
        0,
        &mut dispatched,
    );
    assert!(r.is_ok());
    match &dispatched[0] {
        P2pNetworkAction::Yamux(P2pNetworkYamuxAction::OutgoingFrame { frame, .. }) => {
            assert!(frame.flags.syn);
        },
        _ => panic!("expected the framed payload"),
    }
}

#[test]
fn rst_removes_the_stream_and_reports_the_reset() {
    let addr = 14u64;
    let mut scheduler = scheduler_with_stream(addr, 6, YamuxStreamState::incoming());
    let rst = YamuxFrame {
        flags: YamuxFlags { syn: false, ack: false, fin: false, rst: true },
        stream_id: 6,
        inner: YamuxFrameInner::Data(vec![]),
    };
    match &mut scheduler.connections.get_mut(&addr).unwrap().mux {
        Some(P2pNetworkConnectionMuxState::Yamux(session)) => {
            session.incoming.push_back(rst);
        },
        None => panic!("no mux"),
    }
    let rst_again = YamuxFrame {
        flags: YamuxFlags { syn: false, ack: false, fin: false, rst: true },
        stream_id: 6,
        inner: YamuxFrameInner::Data(vec![]),
    };
    let mut dispatched: Vec<P2pNetworkAction> = Vec::new();
    let r = P2pNetworkYamuxState::reducer(
        &mut scheduler,
        P2pNetworkYamuxAction::IncomingFrame { addr, frame: rst_again },
        0,
        &mut dispatched,
    );
    assert!(r.is_ok());
    // the one stream is gone; the session lives on
    assert!(session_of(&scheduler, addr).streams.get(&6).is_none());
    assert_eq!(session_of(&scheduler, addr).terminated, None);
    assert!(dispatched.iter().any(|a| {
        matches!(
            a,
            P2pNetworkAction::Scheduler(P2pNetworkSchedulerAction::Error {
                error: P2pNetworkConnectionError::StreamReset(6),
                ..
            })
        )
    }));
}

#[test]
fn oversized_payload_saturates_the_window_and_reports_the_violation() {
    let addr = 15u64;
    let mut stream = YamuxStreamState::incoming();
    stream.window_ours = 2;
    stream.established = true;
    let mut scheduler = scheduler_with_stream(addr, 4, stream);
    match &mut scheduler.connections.get_mut(&addr).unwrap().mux {
        Some(P2pNetworkConnectionMuxState::Yamux(session)) => {
            session.incoming.push_back(data_frame(4, vec![1, 2, 3, 4, 5]));
        },
        None => panic!("no mux"),
    }
    let mut dispatched: Vec<P2pNetworkAction> = Vec::new();
    let r = P2pNetworkYamuxState::reducer(
        &mut scheduler,
        P2pNetworkYamuxAction::IncomingFrame { addr, frame: data_frame(4, vec![1, 2, 3, 4, 5]) },
        0,
        &mut dispatched,
    );
    assert!(r.is_ok());
    // the window saturated at zero instead of wrapping, and the
    // flow-control violation travels to the scheduler
    assert_eq!(stream_of(&scheduler, addr, 4).window_ours, 0);
    assert!(dispatched.iter().any(|a| {
        matches!(
            a,
            P2pNetworkAction::Scheduler(P2pNetworkSchedulerAction::Error {
                error: P2pNetworkConnectionError::YamuxFlowControlViolation(4),
                ..
            })
        )
    }));
}

#[test]
fn a_frame_action_that_is_not_the_queue_head_is_dropped() {
    let addr = 16u64;
    let mut scheduler = scheduler_with_stream(addr, 3, YamuxStreamState::incoming());
    match &mut scheduler.connections.get_mut(&addr).unwrap().mux {
        Some(P2pNetworkConnectionMuxState::Yamux(session)) => {
            session.incoming.push_back(data_frame(3, vec![1]));
        },
        None => panic!("no mux"),
    }
    let mut dispatched: Vec<P2pNetworkAction> = Vec::new();
    // the action's frame differs from the queue's head: nothing happens
    let r = P2pNetworkYamuxState::reducer(
        &mut scheduler,
        P2pNetworkYamuxAction::IncomingFrame { addr, frame: data_frame(3, vec![9, 9]) },
        0,
        &mut dispatched,
    );
    assert!(r.is_ok());
    assert!(dispatched.is_empty());
    assert_eq!(session_of(&scheduler, addr).incoming.len(), 1);
    // an empty queue drops the action too
    match &mut scheduler.connections.get_mut(&addr).unwrap().mux {
        Some(P2pNetworkConnectionMuxState::Yamux(session)) => {
            session.incoming.clear();
        },
        None => panic!("no mux"),
    }
    let r = P2pNetworkYamuxState::reducer(
        &mut scheduler,
        P2pNetworkYamuxAction::IncomingFrame { addr, frame: data_frame(3, vec![1]) },
        0,
        &mut dispatched,
    );
    assert!(r.is_ok());
    assert!(dispatched.is_empty());
}

#[test]
fn ping_action_travels_as_a_frame() {
    let addr = 12u64;
    let mut scheduler = scheduler_with_stream(addr, 0, YamuxStreamState::incoming());
    let mut dispatched: Vec<P2pNetworkAction> = Vec::new();
    let r = P2pNetworkYamuxState::reducer(
        &mut scheduler,
        P2pNetworkYamuxAction::PingStream {
            addr,
            ping: YamuxPing { stream_id: 0, opaque: -3, response: false },
        },
        0,
        &mut dispatched,
    );
    assert!(r.is_ok());
    match &dispatched[0] {
        P2pNetworkAction::Yamux(P2pNetworkYamuxAction::OutgoingFrame { frame, .. }) => {
            assert!(!frame.flags.ack);
            assert_eq!(frame.inner, YamuxFrameInner::Ping { opaque: -3 });
        },
        _ => panic!("expected the ping frame"),
    }
}
