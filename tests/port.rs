use mctp_usbredir::adapter::{read_outcome, BulkPacket, BulkTransferToken};
use mctp_usbredir::error::Error;
use mctp_usbredir::port::{PortAction, PortEvent, PortState};

fn token(id: u64) -> BulkTransferToken {
    BulkTransferToken {
        id,
        packet: BulkPacket { endpoint: 0x81, status: 7, length: 512, stream_id: 0, length_high: 0 },
    }
}

#[test]
fn frames_complete_polls_in_order() {
    let mut p = PortState::new();
    for id in [11u64, 12, 13] {
        assert!(matches!(p.step(PortEvent::RedirIn(token(id))), PortAction::Nothing));
    }
    let frames = [vec![1u8], vec![2u8, 2], vec![3u8, 3, 3]];
    for (i, f) in frames.iter().enumerate() {
        assert!(p.tx_pollable());
        match p.step(PortEvent::Outbound(f.clone())) {
            PortAction::SendBulk { id, packet, data } => {
                assert_eq!(id, 11 + i as u64);
                assert_eq!(packet.status, 0);
                assert_eq!(packet.length as usize, f.len());
                assert_eq!(packet.endpoint, 0x81);
                assert_eq!(&data, f);
            }
            other => panic!("unexpected {other:?}"),
        }
    }
    assert!(!p.tx_pollable());
}

#[test]
fn no_transmit_without_poll() {
    let mut p = PortState::new();
    assert!(!p.tx_pollable());
    assert!(matches!(p.step(PortEvent::SocketDone), PortAction::Nothing));
    assert!(!p.tx_pollable());
    p.step(PortEvent::RedirIn(token(1)));
    assert!(p.tx_pollable());
    p.step(PortEvent::Outbound(vec![1]));
    assert!(!p.tx_pollable());
}

#[test]
fn out_data_is_forwarded_unchanged() {
    let mut p = PortState::new();
    match p.step(PortEvent::RedirOut(vec![0, 0, 0, 1, 9])) {
        PortAction::Forward(d) => assert_eq!(d, vec![0, 0, 0, 1, 9]),
        other => panic!("unexpected {other:?}"),
    }
    assert!(!p.tx_pollable());
}

#[test]
fn zero_length_read_is_io_error() {
    assert_eq!(read_outcome(0), Err(Error::Io));
    assert_eq!(read_outcome(5), Ok(5));
}

#[test]
fn socket_failure_stops_the_loop() {
    let mut p = PortState::new();
    p.step(PortEvent::RedirIn(token(1)));
    assert!(matches!(p.step(PortEvent::SocketFailed(Error::Io)), PortAction::Fail(Error::Io)));
    assert!(p.is_stopped());
    assert!(matches!(p.step(PortEvent::RedirIn(token(2))), PortAction::Nothing));
    assert!(matches!(p.step(PortEvent::RedirOut(vec![1])), PortAction::Nothing));
    assert!(matches!(p.step(PortEvent::Outbound(vec![1])), PortAction::Nothing));
    assert!(p.tx_pollable());
}

#[test]
fn closed_transmit_channel_fails() {
    let mut p = PortState::new();
    p.step(PortEvent::RedirIn(token(1)));
    assert!(matches!(p.step(PortEvent::OutboundClosed), PortAction::Fail(Error::TxFailure)));
    assert!(p.is_stopped());
}
