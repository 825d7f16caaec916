use mctp_usbredir::adapter::{
    bulk_packet, device_connect, ep_info, interface_info, set_configuration, BulkAction,
    BulkPacket,
};
use mctp_usbredir::endpoint::{is_echo_request, route_port, ReadProgress};

fn bulk(endpoint: u8) -> BulkPacket {
    BulkPacket { endpoint, status: 3, length: 4, stream_id: 9, length_high: 1 }
}

#[test]
fn in_poll_is_queued_as_token() {
    match bulk_packet(42, &bulk(0x81), &[]) {
        BulkAction::QueueIn(t) => {
            assert_eq!(t.id, 42);
            assert_eq!(t.packet, bulk(0x81));
        }
        other => panic!("unexpected {other:?}"),
    }
}

#[test]
fn out_data_is_copied_and_acknowledged() {
    match bulk_packet(7, &bulk(0x01), &[1, 2, 3, 4]) {
        BulkAction::ForwardOut { data, ack } => {
            assert_eq!(data, vec![1, 2, 3, 4]);
            assert_eq!(ack.endpoint, 0x01);
            assert_eq!(ack.status, 0);
            assert_eq!(ack.length, 0);
            assert_eq!(ack.length_high, 0);
            assert_eq!(ack.stream_id, 9);
        }
        other => panic!("unexpected {other:?}"),
    }
}

#[test]
fn unknown_endpoint_is_ignored() {
    assert!(matches!(bulk_packet(1, &bulk(0x82), &[1]), BulkAction::Ignore));
}

#[test]
fn configuration_one_is_accepted() {
    let (resend, st) = set_configuration(1);
    assert!(resend);
    assert_eq!(st.status, 0);
    assert_eq!(st.configuration, 1);
}

#[test]
fn other_configuration_is_rejected() {
    for c in [0u8, 2, 255] {
        let (resend, st) = set_configuration(c);
        assert!(!resend);
        assert_eq!(st.status, 1);
        assert_eq!(st.configuration, c);
    }
}

#[test]
fn device_connect_identity() {
    let d = device_connect();
    assert_eq!(d.vendor_id, 0xcc00);
    assert_eq!(d.product_id, 0xcc00);
    assert_eq!(d.speed, 2);
    assert_eq!(d.device_class, 0);
}

#[test]
fn interface_info_describes_mctp_interface() {
    let i = interface_info();
    assert_eq!(i.interface_count, 1);
    assert_eq!(i.interface_class[0], 0x14);
    assert_eq!(i.interface_protocol[0], 1);
    assert_eq!(i.interface[0], 0);
    assert!(i.interface_class[1..].iter().all(|&c| c == 0));
}

#[test]
fn ep_info_describes_control_and_bulk() {
    let e = ep_info();
    assert_eq!(e.type_[0], 0);
    assert_eq!(e.type_[16], 0);
    assert_eq!(e.type_[1], 2);
    assert_eq!(e.type_[17], 2);
    assert_eq!(e.type_[2], 255);
    assert_eq!(e.max_packet_size[0], 16);
    assert_eq!(e.max_packet_size[17], 512);
    assert_eq!(e.max_packet_size[1], 512);
    assert_eq!(e.max_packet_size[3], 0);
}

#[test]
fn routes_only_local_traffic() {
    assert_eq!(route_port(None), Some(0));
    assert_eq!(route_port(Some(0)), None);
}

#[test]
fn echo_requests_need_the_prefix() {
    assert!(is_echo_request(&[0xcc, 0xde, 0xf0]));
    assert!(is_echo_request(&[0xcc, 0xde, 0xf0, 1, 2]));
    assert!(!is_echo_request(&[0xcc, 0xde]));
    assert!(!is_echo_request(&[0xcc, 0xde, 0xf1, 1]));
}

#[test]
fn read_progress_keeps_to_announced_size() {
    let mut p = ReadProgress::new(10);
    assert!(p.add_part(4));
    assert!(p.add_part(6));
    assert_eq!(p.received, 10);
    assert!(!p.add_part(1));
    assert_eq!(p.received, 11);
    let mut q = ReadProgress { received: u64::MAX - 1, expected: u64::MAX };
    assert!(!q.add_part(5));
    assert_eq!(q.received, u64::MAX);
}
