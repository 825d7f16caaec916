//! USB descriptor tables of the emulated MCTP-over-USB device.
//!
//! Every table is a pure function of constant data. The spec functions give
//! the exact bytes; the executable functions build them and are proved equal.
use vstd::prelude::*;

verus! {

pub const USB_DESC_TYPE_DEVICE: u8 = 1;

pub const USB_DESC_TYPE_CONFIGURATION: u8 = 2;

pub const USB_DESC_TYPE_STRING: u8 = 3;

pub const USB_DESC_TYPE_INTERFACE: u8 = 4;

pub const USB_DESC_TYPE_ENDPOINT: u8 = 5;

/// Interface class code assigned to MCTP.
pub const USB_CLASS_MCTP: u8 = 0x14;

/// Interface protocol code of MCTP over USB, version 1.
pub const USB_PROTO_MCTP_V1: u8 = 1;

/// Address of the bulk OUT endpoint (host to device).
pub const EP_ADDR_OUT: u8 = 0x01;

/// Address of the bulk IN endpoint (device to host).
pub const EP_ADDR_IN: u8 = 0x81;

pub const VENDOR_ID: u16 = 0xcc00;

pub const PRODUCT_ID: u16 = 0xcc00;

/// Number of entries in the string table (string indices 1 to 4).
pub const NUM_STRINGS: u8 = 4;

/// The 18-byte device descriptor.
pub open spec fn device_descriptor_bytes() -> Seq<u8> {
    seq![
        18u8, USB_DESC_TYPE_DEVICE,
        0x00u8, 0x02u8,  // bcdUSB 2.00
        0x00u8, 0x00u8, 0x00u8,  // class, subclass, protocol
        0x40u8,  // max packet size of endpoint 0
        0x00u8, 0xccu8,  // idVendor
        0x00u8, 0xccu8,  // idProduct
        0x13u8, 0x06u8,  // bcdDevice
        0x01u8, 0x02u8, 0x03u8,  // manufacturer, product, serial string indices
        0x01u8,  // one configuration
    ]
}

/// The configuration descriptor header, with its total-length field zeroed.
pub open spec fn config_header_bytes() -> Seq<u8> {
    seq![9u8, USB_DESC_TYPE_CONFIGURATION, 0u8, 0u8, 1u8, 1u8, 0u8, 0x80u8, 0x01u8]
}

pub open spec fn interface_descriptor_bytes() -> Seq<u8> {
    seq![
        9u8, USB_DESC_TYPE_INTERFACE,
        0u8, 0u8,  // interface number, alternate setting
        2u8,  // two endpoints
        USB_CLASS_MCTP, 0u8, USB_PROTO_MCTP_V1,
        4u8,  // interface string index
    ]
}

/// A bulk endpoint descriptor with a 512-byte maximum packet size.
pub open spec fn endpoint_descriptor_bytes(addr: u8) -> Seq<u8> {
    seq![7u8, USB_DESC_TYPE_ENDPOINT, addr, 0x02u8, 0x00u8, 0x02u8, 0u8]
}

/// config ‖ interface ‖ endpoint OUT ‖ endpoint IN, before the length is patched.
pub open spec fn config_parts() -> Seq<u8> {
    config_header_bytes() + interface_descriptor_bytes() + endpoint_descriptor_bytes(EP_ADDR_OUT)
        + endpoint_descriptor_bytes(EP_ADDR_IN)
}

/// The assembled configuration descriptor: the parts, with the little-endian
/// total-length field (bytes 2 and 3) set to their combined length.
pub open spec fn configuration_descriptor_bytes() -> Seq<u8> {
    let len = config_parts().len();
    config_parts().update(2, (len % 256) as u8).update(3, (len / 256) as u8)
}

/// The language-ID block (US English) returned for string index 0.
pub open spec fn string_langs_bytes() -> Seq<u8> {
    seq![4u8, USB_DESC_TYPE_STRING, 0x09u8, 0x04u8]
}

/// The string table: manufacturer, product, serial number, interface name.
pub open spec fn string_table(k: int) -> Seq<char> {
    if k == 0 {
        "Code Construct"@
    } else if k == 1 {
        "MCTP over USB device"@
    } else if k == 2 {
        "sn0000"@
    } else {
        "MCTP over USB"@
    }
}

/// The UTF-16 code units of one character.
pub open spec fn char_utf16(c: char) -> Seq<u16> {
    let cp = c as u32;
    if cp < 0x10000 {
        seq![cp as u16]
    } else {
        let v = (cp - 0x10000) as u32;
        seq![(0xd800 + v / 1024) as u16, (0xdc00 + v % 1024) as u16]
    }
}

/// A code unit as two little-endian bytes.
pub open spec fn u16_le(u: u16) -> Seq<u8> {
    seq![(u % 256) as u8, (u / 256) as u8]
}

/// The UTF-16LE bytes of one character.
pub open spec fn char_utf16le(c: char) -> Seq<u8> {
    let units = char_utf16(c);
    if units.len() == 1 {
        u16_le(units[0])
    } else {
        u16_le(units[0]) + u16_le(units[1])
    }
}

/// The UTF-16LE encoding of a character sequence.
pub open spec fn utf16le(s: Seq<char>) -> Seq<u8>
    decreases s.len(),
{
    if s.len() == 0 {
        Seq::empty()
    } else {
        utf16le(s.drop_last()) + char_utf16le(s.last())
    }
}

/// A string descriptor: length byte, type byte, then the UTF-16LE text.
/// The length byte is the low byte of the whole descriptor's size.
pub open spec fn string_descriptor_of(s: Seq<char>) -> Seq<u8> {
    let body = utf16le(s);
    seq![((body.len() + 2) % 256) as u8, USB_DESC_TYPE_STRING] + body
}

/// The string descriptor for `index`: the language block for 0, the
/// encoded table entry `index - 1` for 1 to 4, and nothing otherwise.
pub open spec fn string_descriptor_bytes(index: u8) -> Seq<u8> {
    if index == 0 {
        string_langs_bytes()
    } else if index <= NUM_STRINGS {
        string_descriptor_of(string_table(index - 1))
    } else {
        Seq::empty()
    }
}

/// The descriptor that a GET_DESCRIPTOR request for (`desc_type`, `index`)
/// names; empty when there is none.
pub open spec fn descriptor_bytes(desc_type: u8, index: u8) -> Seq<u8> {
    if desc_type == USB_DESC_TYPE_DEVICE {
        device_descriptor_bytes()
    } else if desc_type == USB_DESC_TYPE_STRING {
        string_descriptor_bytes(index)
    } else if desc_type == USB_DESC_TYPE_CONFIGURATION {
        configuration_descriptor_bytes()
    } else {
        Seq::empty()
    }
}

/// The first `len` bytes of `d`, or all of `d` when it is shorter.
pub open spec fn truncated(d: Seq<u8>, len: nat) -> Seq<u8> {
    if len < d.len() {
        d.subrange(0, len as int)
    } else {
        d
    }
}

pub fn device_descriptor() -> (r: Vec<u8>)
    ensures
        r@ == device_descriptor_bytes(),
{
    let v: Vec<u8> = vec![
        18, USB_DESC_TYPE_DEVICE,
        0x00, 0x02,
        0x00, 0x00, 0x00,
        0x40,
        0x00, 0xcc,
        0x00, 0xcc,
        0x13, 0x06,
        0x01, 0x02, 0x03,
        0x01,
    ];
    assert(v@ =~= device_descriptor_bytes());
    v
}

fn endpoint_descriptor(addr: u8) -> (r: Vec<u8>)
    ensures
        r@ == endpoint_descriptor_bytes(addr),
{
    let v: Vec<u8> = vec![7, USB_DESC_TYPE_ENDPOINT, addr, 0x02, 0x00, 0x02, 0];
    assert(v@ =~= endpoint_descriptor_bytes(addr));
    v
}

/// Concatenates the configuration, interface and both endpoint descriptors,
/// then patches the total-length field to the concatenated length.
pub fn configuration_descriptor() -> (r: Vec<u8>)
    ensures
        r@ == configuration_descriptor_bytes(),
{
    let mut v: Vec<u8> = vec![9, USB_DESC_TYPE_CONFIGURATION, 0, 0, 1, 1, 0, 0x80, 0x01];
    assert(v@ =~= config_header_bytes());
    let mut iface: Vec<u8> = vec![9, USB_DESC_TYPE_INTERFACE, 0, 0, 2, USB_CLASS_MCTP, 0, USB_PROTO_MCTP_V1, 4];
    assert(iface@ =~= interface_descriptor_bytes());
    let mut ep_out = endpoint_descriptor(EP_ADDR_OUT);
    let mut ep_in = endpoint_descriptor(EP_ADDR_IN);
    v.append(&mut iface);
    v.append(&mut ep_out);
    v.append(&mut ep_in);
    assert(v@ == config_parts());
    let len = v.len();
    v.set(2, (len % 256) as u8);
    v.set(3, (len / 256) as u8);
    assert(v@ =~= configuration_descriptor_bytes());
    v
}

/// Entry `k` of the string table.
fn string_table_entry(k: u8) -> (r: &'static str)
    requires
        k < NUM_STRINGS,
    ensures
        r@ == string_table(k as int),
{
    if k == 0 {
        "Code Construct"
    } else if k == 1 {
        "MCTP over USB device"
    } else if k == 2 {
        "sn0000"
    } else {
        "MCTP over USB"
    }
}

/// Appends the UTF-16LE bytes of `c` to `v`.
fn push_char_utf16le(v: &mut Vec<u8>, c: char)
    ensures
        final(v)@ == old(v)@ + char_utf16le(c),
{
    let cp = c as u32;
    if cp < 0x10000 {
        let u = cp as u16;
        v.push((u % 256) as u8);
        v.push((u / 256) as u8);
        assert(final(v)@ =~= old(v)@ + char_utf16le(c));
    } else {
        assert(cp <= 0x10ffff);
        let w = cp - 0x10000;
        let hi = (0xd800 + w / 1024) as u16;
        let lo = (0xdc00 + w % 1024) as u16;
        v.push((hi % 256) as u8);
        v.push((hi / 256) as u8);
        v.push((lo % 256) as u8);
        v.push((lo / 256) as u8);
        assert(final(v)@ =~= old(v)@ + char_utf16le(c));
    }
}

/// Encodes `s` as a string descriptor: a length byte, the string type, and
/// the UTF-16LE encoding of `s`.
fn encode_string_descriptor(s: &str) -> (r: Vec<u8>)
    ensures
        r@ == string_descriptor_of(s@),
{
    let mut body: Vec<u8> = Vec::new();
    let n = s.unicode_len();
    let mut i: usize = 0;
    while i < n
        invariant
            n == s@.len(),
            i <= n,
            body@ == utf16le(s@.subrange(0, i as int)),
        decreases n - i,
    {
        let c = s.get_char(i);
        push_char_utf16le(&mut body, c);
        proof {
            let t = s@.subrange(0, i + 1);
            assert(t.drop_last() =~= s@.subrange(0, i as int));
            assert(t.last() == c);
        }
        i = i + 1;
    }
    assert(s@.subrange(0, n as int) =~= s@);
    let len = body.len();
    let mut v: Vec<u8> = vec![((len % 256 + 2) % 256) as u8, USB_DESC_TYPE_STRING];
    v.append(&mut body);
    assert(v@ =~= string_descriptor_of(s@));
    v
}

/// The string descriptor for `index`: the language-ID block for 0, the
/// UTF-16LE encoding of table entry `index - 1` for 1 to 4, and an empty
/// result (not found) for any other index.
pub fn string_descriptor(index: u8) -> (r: Vec<u8>)
    ensures
        r@ == string_descriptor_bytes(index),
        index == 0 ==> r@ == seq![4u8, 0x03u8, 0x09u8, 0x04u8],
        index > NUM_STRINGS ==> r@.len() == 0,
{
    if index == 0 {
        let v: Vec<u8> = vec![4, USB_DESC_TYPE_STRING, 0x09, 0x04];
        assert(v@ =~= string_langs_bytes());
        v
    } else if index <= NUM_STRINGS {
        encode_string_descriptor(string_table_entry(index - 1))
    } else {
        Vec::new()
    }
}

/// The descriptor named by a GET_DESCRIPTOR request: device (type 1),
/// configuration (type 2) or string (type 3, by index); empty otherwise.
pub fn lookup_descriptor(desc_type: u8, index: u8) -> (r: Vec<u8>)
    ensures
        r@ == descriptor_bytes(desc_type, index),
{
    if desc_type == USB_DESC_TYPE_DEVICE {
        device_descriptor()
    } else if desc_type == USB_DESC_TYPE_STRING {
        string_descriptor(index)
    } else if desc_type == USB_DESC_TYPE_CONFIGURATION {
        configuration_descriptor()
    } else {
        Vec::new()
    }
}

/// The total-length field of the configuration descriptor equals the byte
/// length of config ‖ interface ‖ endpoint OUT ‖ endpoint IN, and the
/// assembled descriptor is exactly that long.
pub proof fn lemma_configuration_total_length()
    ensures
        ({
            let d = configuration_descriptor_bytes();
            let whole = config_header_bytes() + interface_descriptor_bytes()
                + endpoint_descriptor_bytes(EP_ADDR_OUT) + endpoint_descriptor_bytes(EP_ADDR_IN);
            &&& d.len() == whole.len()
            &&& d[2] as nat + 256 * (d[3] as nat) == whole.len()
        }),
{
}

} // verus!
