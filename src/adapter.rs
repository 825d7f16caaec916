//! Replies of the emulated device to the USB-redirection peer.
//!
//! The wire-protocol engine calls back into the device for each request it
//! parses. These functions decide what each callback answers and queues; the
//! callbacks themselves only hand the results to the engine.
use crate::descriptors::{
    descriptor_bytes, lookup_descriptor, truncated, EP_ADDR_IN, EP_ADDR_OUT, PRODUCT_ID,
    USB_CLASS_MCTP, USB_PROTO_MCTP_V1, VENDOR_ID,
};
use crate::error::Error;
use vstd::prelude::*;
use vstd::slice::slice_to_vec;

verus! {

/// Standard control request code of GET_DESCRIPTOR.
pub const USB_CTRL_GET_DESCRIPTOR: u8 = 6;

/// Transfer status: success.
pub const STATUS_SUCCESS: u8 = 0;

/// Configuration status reported for a configuration that does not exist.
pub const STATUS_CONFIG_REJECTED: u8 = 1;

/// Link speed code of high speed (480 Mbit/s).
pub const SPEED_HIGH: u8 = 2;

/// Endpoint type codes.
pub const TYPE_CONTROL: u8 = 0;

pub const TYPE_BULK: u8 = 2;

pub const TYPE_INVALID: u8 = 255;

/// The only configuration value of the device.
pub const CONFIGURATION_VALUE: u8 = 1;

/// Header of a control transfer.
#[derive(Debug, Clone, Copy, PartialEq, Eq, Structural)]
pub struct ControlPacket {
    pub endpoint: u8,
    pub request: u8,
    pub requesttype: u8,
    pub status: u8,
    pub value: u16,
    pub index: u16,
    pub length: u16,
}

/// Header of a bulk transfer.
#[derive(Debug, Clone, Copy, PartialEq, Eq, Structural)]
pub struct BulkPacket {
    pub endpoint: u8,
    pub status: u8,
    pub length: u16,
    pub stream_id: u32,
    pub length_high: u16,
}

/// The device-connect event sent after the peer's hello.
#[derive(Debug, Clone, Copy, PartialEq, Eq, Structural)]
pub struct DeviceConnect {
    pub speed: u8,
    pub device_class: u8,
    pub device_subclass: u8,
    pub device_protocol: u8,
    pub vendor_id: u16,
    pub product_id: u16,
    pub device_version_bcd: u16,
}

/// Answer to a set-configuration request.
#[derive(Debug, Clone, Copy, PartialEq, Eq, Structural)]
pub struct ConfigurationStatus {
    pub status: u8,
    pub configuration: u8,
}

/// The interface description of the device, one slot per interface.
#[derive(Debug)]
pub struct InterfaceInfo {
    pub interface_count: u32,
    pub interface: [u8; 32],
    pub interface_class: [u8; 32],
    pub interface_subclass: [u8; 32],
    pub interface_protocol: [u8; 32],
}

/// The endpoint description of the device: slots 0 to 15 are OUT endpoints
/// 0 to 15, slots 16 to 31 are IN endpoints 0 to 15.
#[derive(Debug)]
pub struct EpInfo {
    pub type_: [u8; 32],
    pub interval: [u8; 32],
    pub interface: [u8; 32],
    pub max_packet_size: [u16; 32],
    pub max_streams: [u32; 32],
}

/// One outstanding poll of the bulk IN endpoint: the transfer's identifier
/// and header, kept until outbound data answers it.
#[derive(Debug, Clone, Copy, PartialEq, Eq, Structural)]
pub struct BulkTransferToken {
    pub id: u64,
    pub packet: BulkPacket,
}

/// What a bulk transfer from the host leads to.
#[derive(Debug)]
pub enum BulkAction {
    /// A poll of the IN endpoint: queue it until there is data to send.
    QueueIn(BulkTransferToken),
    /// Data for the OUT endpoint: pass it on, and acknowledge the transfer
    /// at once with `ack`.
    ForwardOut { data: Vec<u8>, ack: BulkPacket },
    /// A transfer for an endpoint the device does not have.
    Ignore,
}

/// The descriptor type that a GET_DESCRIPTOR request asks for (high byte of
/// its value field).
pub open spec fn requested_type(req: ControlPacket) -> u8 {
    (req.value / 256) as u8
}

/// The descriptor index that a GET_DESCRIPTOR request asks for (low byte of
/// its value field).
pub open spec fn requested_index(req: ControlPacket) -> u8 {
    (req.value % 256) as u8
}

/// The reply data of a GET_DESCRIPTOR request: the named descriptor, cut to
/// the requested length.
pub open spec fn descriptor_reply(req: ControlPacket) -> Seq<u8> {
    truncated(descriptor_bytes(requested_type(req), requested_index(req)), req.length as nat)
}

/// Answers a GET_DESCRIPTOR request: the header echoes the request with its
/// length set to that of the data, and the data is the named descriptor,
/// truncated to the requested length (empty when there is no such
/// descriptor).
pub fn control_get_descriptor(req: &ControlPacket) -> (r: (ControlPacket, Vec<u8>))
    ensures
        r.1@ == descriptor_reply(*req),
        r.1@.len() == if (req.length as nat) < descriptor_bytes(requested_type(*req), requested_index(*req)).len() {
            req.length as nat
        } else {
            descriptor_bytes(requested_type(*req), requested_index(*req)).len()
        },
        r.0 == (ControlPacket { length: r.1@.len() as u16, ..*req }),
{
    let desc_type = (req.value / 256) as u8;
    let desc_idx = (req.value % 256) as u8;
    let mut data = lookup_descriptor(desc_type, desc_idx);
    let req_len = req.length as usize;
    if req_len < data.len() {
        data.truncate(req_len);
        assert(data@ =~= descriptor_reply(*req));
    }
    let resp = ControlPacket { length: data.len() as u16, ..*req };
    (resp, data)
}

/// Answers a control request: GET_DESCRIPTOR is answered as above; any
/// other request gets no reply.
pub fn control_packet(req: &ControlPacket) -> (r: Option<(ControlPacket, Vec<u8>)>)
    ensures
        r is Some <==> req.request == USB_CTRL_GET_DESCRIPTOR,
        r matches Some((hdr, data)) ==> data@ == descriptor_reply(*req) && hdr == (ControlPacket {
            length: data@.len() as u16,
            ..*req
        }),
{
    if req.request == USB_CTRL_GET_DESCRIPTOR {
        Some(control_get_descriptor(req))
    } else {
        None
    }
}

/// Answers a set-configuration request. Configuration 1 is accepted
/// (success status, and the interface and endpoint descriptions are sent
/// again: the first result is `true`); any other value is rejected.
pub fn set_configuration(configuration: u8) -> (r: (bool, ConfigurationStatus))
    ensures
        r.0 == (configuration == CONFIGURATION_VALUE),
        r.1.configuration == configuration,
        r.1.status == if configuration == CONFIGURATION_VALUE {
            STATUS_SUCCESS
        } else {
            STATUS_CONFIG_REJECTED
        },
{
    let mut status = ConfigurationStatus { configuration, status: STATUS_CONFIG_REJECTED };
    let accepted = configuration == CONFIGURATION_VALUE;
    if accepted {
        status.status = STATUS_SUCCESS;
    }
    (accepted, status)
}

/// The device-connect event: high speed, class codes left to the
/// interface, fixed vendor and product identifiers.
pub fn device_connect() -> (r: DeviceConnect)
    ensures
        r == (DeviceConnect {
            speed: SPEED_HIGH,
            device_class: 0,
            device_subclass: 0,
            device_protocol: 0,
            vendor_id: VENDOR_ID,
            product_id: PRODUCT_ID,
            device_version_bcd: 0,
        }),
{
    DeviceConnect {
        speed: SPEED_HIGH,
        device_class: 0,
        device_subclass: 0,
        device_protocol: 0,
        vendor_id: VENDOR_ID,
        product_id: PRODUCT_ID,
        device_version_bcd: 0,
    }
}

/// The interface description: one interface, number 0, of class MCTP and
/// protocol version 1; every other slot zero.
pub fn interface_info() -> (r: InterfaceInfo)
    ensures
        r.interface_count == 1,
        r.interface_class@ == seq![USB_CLASS_MCTP].add(Seq::new(31, |i: int| 0u8)),
        r.interface_protocol@ == seq![USB_PROTO_MCTP_V1].add(Seq::new(31, |i: int| 0u8)),
        r.interface@ == Seq::new(32, |i: int| 0u8),
        r.interface_subclass@ == Seq::new(32, |i: int| 0u8),
{
    let mut info = InterfaceInfo {
        interface_count: 0,
        interface: [0u8; 32],
        interface_class: [0u8; 32],
        interface_subclass: [0u8; 32],
        interface_protocol: [0u8; 32],
    };
    info.interface_count = 1;
    info.interface[0] = 0;
    info.interface_class[0] = USB_CLASS_MCTP;
    info.interface_protocol[0] = USB_PROTO_MCTP_V1;
    assert(info.interface_class@ =~= seq![USB_CLASS_MCTP].add(Seq::new(31, |i: int| 0u8)));
    assert(info.interface_protocol@ =~= seq![USB_PROTO_MCTP_V1].add(Seq::new(31, |i: int| 0u8)));
    assert(info.interface@ =~= Seq::new(32, |i: int| 0u8));
    assert(info.interface_subclass@ =~= Seq::new(32, |i: int| 0u8));
    info
}

/// The endpoint type that the endpoint description gives slot `i`:
/// control for OUT and IN endpoint 0, bulk for OUT and IN endpoint 1,
/// invalid elsewhere.
pub open spec fn ep_type(i: int) -> u8 {
    if i == 0 || i == 16 {
        TYPE_CONTROL
    } else if i == 1 || i == 17 {
        TYPE_BULK
    } else {
        TYPE_INVALID
    }
}

/// The maximum packet size that the endpoint description gives slot `i`.
pub open spec fn ep_max_packet_size(i: int) -> u16 {
    if i == 0 || i == 16 {
        16
    } else if i == 1 || i == 17 {
        512
    } else {
        0
    }
}

/// The endpoint description: control endpoint 0 both ways (16-byte
/// packets), bulk endpoint 1 both ways (512-byte packets), no others.
pub fn ep_info() -> (r: EpInfo)
    ensures
        r.type_@ == Seq::new(32, |i: int| ep_type(i)),
        r.max_packet_size@ == Seq::new(32, |i: int| ep_max_packet_size(i)),
        r.interval@ == Seq::new(32, |i: int| 0u8),
        r.interface@ == Seq::new(32, |i: int| 0u8),
        r.max_streams@ == Seq::new(32, |i: int| 0u32),
{
    let mut info = EpInfo {
        type_: [TYPE_INVALID; 32],
        interval: [0u8; 32],
        interface: [0u8; 32],
        max_packet_size: [0u16; 32],
        max_streams: [0u32; 32],
    };
    info.type_[0] = TYPE_CONTROL;
    info.max_packet_size[0] = 16;
    info.type_[16] = TYPE_CONTROL;
    info.max_packet_size[16] = 16;
    info.type_[1] = TYPE_BULK;
    info.max_packet_size[1] = 512;
    info.type_[17] = TYPE_BULK;
    info.max_packet_size[17] = 512;
    assert(info.type_@ =~= Seq::new(32, |i: int| ep_type(i)));
    assert(info.max_packet_size@ =~= Seq::new(32, |i: int| ep_max_packet_size(i)));
    assert(info.interval@ =~= Seq::new(32, |i: int| 0u8));
    assert(info.interface@ =~= Seq::new(32, |i: int| 0u8));
    assert(info.max_streams@ =~= Seq::new(32, |i: int| 0u32));
    info
}

/// Routes a bulk transfer from the host. A poll of the IN endpoint becomes
/// a token to queue, with no reply yet. Data for the OUT endpoint is copied
/// out and acknowledged at once: success, zero length, the rest of the
/// header kept. A transfer for any other endpoint is ignored.
pub fn bulk_packet(id: u64, pkt: &BulkPacket, data: &[u8]) -> (r: BulkAction)
    ensures
        pkt.endpoint == EP_ADDR_IN ==> r == BulkAction::QueueIn(
            BulkTransferToken { id, packet: *pkt },
        ),
        pkt.endpoint == EP_ADDR_OUT ==> (r matches BulkAction::ForwardOut { data: d, ack } && d@
            == data@ && ack == (BulkPacket { status: STATUS_SUCCESS, length: 0, length_high: 0, ..*pkt })),
        pkt.endpoint != EP_ADDR_IN && pkt.endpoint != EP_ADDR_OUT ==> r is Ignore,
{
    if pkt.endpoint == EP_ADDR_IN {
        BulkAction::QueueIn(BulkTransferToken { id, packet: *pkt })
    } else if pkt.endpoint == EP_ADDR_OUT {
        let v = slice_to_vec(data);
        let ack = BulkPacket { status: STATUS_SUCCESS, length: 0, length_high: 0, ..*pkt };
        BulkAction::ForwardOut { data: v, ack }
    } else {
        BulkAction::Ignore
    }
}

/// Classifies the byte count of a socket read: zero bytes means that the
/// peer has disconnected, an `Io` error; any other count is passed on.
pub fn read_outcome(n: usize) -> (r: Result<usize, Error>)
    ensures
        n == 0 ==> r == Err::<usize, Error>(Error::Io),
        n > 0 ==> r == Ok::<usize, Error>(n),
{
    if n == 0 {
        Err(Error::Io)
    } else {
        Ok(n)
    }
}

/// A GET_DESCRIPTOR reply is as long as the requested length or the
/// descriptor, whichever is shorter, and is a prefix of the descriptor.
pub proof fn lemma_descriptor_truncation(req: ControlPacket)
    ensures
        ({
            let d = descriptor_bytes(requested_type(req), requested_index(req));
            let r = descriptor_reply(req);
            &&& r.len() == if (req.length as nat) < d.len() { req.length as nat } else { d.len() }
            &&& r =~= d.subrange(0, r.len() as int)
        }),
{
}

} // verus!
