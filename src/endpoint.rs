//! Small decisions of the emulated endpoint around its transport: where
//! packets are routed, which vendor messages the echo service answers, and
//! how a file read keeps to the size that was announced.
use vstd::prelude::*;

verus! {

/// The port that all traffic of this endpoint uses.
pub const LOCAL_PORT: u8 = 0;

/// Vendor message prefix (PCI vendor type) that the echo service answers.
pub open spec fn echo_prefix() -> Seq<u8> {
    seq![0xccu8, 0xdeu8, 0xf0u8]
}

/// Route lookup of an endpoint device: packets that arrived on a port are
/// never forwarded (`None`); packets this endpoint sends go out on its one
/// port.
pub fn route_port(source_port: Option<u8>) -> (r: Option<u8>)
    ensures
        source_port is Some ==> r is None,
        source_port is None ==> r == Some(LOCAL_PORT),
{
    match source_port {
        Some(_) => None,
        None => Some(LOCAL_PORT),
    }
}

/// Whether the echo service answers `msg`: it must start with the echo
/// vendor prefix.
pub fn is_echo_request(msg: &[u8]) -> (r: bool)
    ensures
        r == (msg@.len() >= 3 && msg@.subrange(0, 3) == echo_prefix()),
{
    if msg.len() < 3 {
        return false;
    }
    let ok = msg[0] == 0xcc && msg[1] == 0xde && msg[2] == 0xf0;
    proof {
        if ok {
            assert(msg@.subrange(0, 3) =~= echo_prefix());
        } else {
            assert(msg@.subrange(0, 3)[0] == msg@[0]);
            assert(msg@.subrange(0, 3)[1] == msg@[1]);
            assert(msg@.subrange(0, 3)[2] == msg@[2]);
        }
    }
    ok
}

/// Progress of a file read: `received` bytes so far of the `expected` that
/// the file's descriptor record announced.
#[derive(Debug, Clone, Copy, PartialEq, Eq, Structural)]
pub struct ReadProgress {
    pub received: u64,
    pub expected: u64,
}

impl ReadProgress {
    pub fn new(expected: u64) -> (r: ReadProgress)
        ensures
            r == (ReadProgress { received: 0, expected }),
    {
        ReadProgress { received: 0, expected }
    }

    /// Counts a part of `len` bytes, and says whether it may be kept: only
    /// while the total stays within the announced size. The count saturates
    /// at the largest `u64`.
    pub fn add_part(&mut self, len: u64) -> (r: bool)
        ensures
            final(self).expected == old(self).expected,
            final(self).received == if old(self).received + len <= u64::MAX {
                (old(self).received + len) as u64
            } else {
                u64::MAX
            },
            r == (old(self).received + len <= old(self).expected),
    {
        let accepted = len <= self.expected && self.received <= self.expected - len;
        self.received = self.received.saturating_add(len);
        accepted
    }
}

} // verus!
