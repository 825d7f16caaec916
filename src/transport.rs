//! The receive side of the transport handle: a fixed-capacity buffer that
//! holds the not-yet-decoded rest of the last bulk transfer.
use crate::error::Error;
use crate::framing::{decode, decoded, encoded, lemma_first_of_two, lemma_round_trip, MAX_PAYLOAD_LEN};
use vstd::prelude::*;
use vstd::slice::slice_subrange;
use vstd::slice::slice_to_vec;

verus! {

/// Largest bulk transfer accepted from the host.
pub const USB_XFER_SIZE: usize = 512;

/// Partial receive buffer: `buf[start..end]` is what is left to decode.
pub struct RxBuffer {
    buf: Vec<u8>,
    start: usize,
    end: usize,
}

impl View for RxBuffer {
    type V = Seq<u8>;

    /// The bytes received and not yet decoded.
    closed spec fn view(&self) -> Seq<u8> {
        self.buf@.subrange(self.start as int, self.end as int)
    }
}

impl RxBuffer {
    /// The remaining range is a valid part of a buffer of the transfer size.
    pub closed spec fn wf(&self) -> bool {
        &&& self.buf@.len() == USB_XFER_SIZE
        &&& self.start <= self.end <= self.buf@.len()
    }

    pub fn new() -> (r: RxBuffer)
        ensures
            r.wf(),
            r@ == Seq::<u8>::empty(),
    {
        let r = RxBuffer { buf: vec![0u8; USB_XFER_SIZE], start: 0, end: 0 };
        assert(r@ =~= Seq::<u8>::empty());
        r
    }

    /// Whether every byte received so far has been decoded, so that the next
    /// frame needs a new delivery.
    pub fn is_empty(&self) -> (r: bool)
        requires
            self.wf(),
        ensures
            r == (self@.len() == 0),
    {
        self.start == self.end
    }

    /// Takes one delivery (one bulk transfer) as the new content. A delivery
    /// longer than the transfer size fails with `Overflow` and leaves the
    /// buffer as it was.
    pub fn deliver(&mut self, data: &[u8]) -> (r: Result<(), Error>)
        requires
            old(self).wf(),
        ensures
            final(self).wf(),
            data@.len() > USB_XFER_SIZE ==> r == Err::<(), Error>(Error::Overflow) && final(self)@
                == old(self)@,
            data@.len() <= USB_XFER_SIZE ==> r == Ok::<(), Error>(()) && final(self)@ == data@,
    {
        let len = data.len();
        if len > USB_XFER_SIZE {
            return Err(Error::Overflow);
        }
        let mut i: usize = 0;
        while i < len
            invariant
                len == data@.len(),
                len <= USB_XFER_SIZE,
                i <= len,
                self.buf@.len() == USB_XFER_SIZE,
                forall|j: int| 0 <= j < i ==> self.buf@[j] == data@[j],
            decreases len - i,
        {
            self.buf.set(i, data[i]);
            i = i + 1;
        }
        self.start = 0;
        self.end = len;
        assert(self@ =~= data@);
        Ok(())
    }

    /// Decodes one frame from the remaining bytes and keeps what follows it.
    /// When the remaining bytes do not start with a whole frame, they are
    /// all discarded and the call fails with `Framing`.
    pub fn next_frame(&mut self) -> (r: Result<Vec<u8>, Error>)
        requires
            old(self).wf(),
        ensures
            final(self).wf(),
            match decoded(old(self)@) {
                Some((f, rem)) => r matches Ok(v) && v@ == f && final(self)@ == rem,
                None => r == Err::<Vec<u8>, Error>(Error::Framing) && final(self)@.len() == 0,
            },
    {
        let data = slice_subrange(self.buf.as_slice(), self.start, self.end);
        match decode(data) {
            Ok((pkt, rem)) => {
                let v = slice_to_vec(pkt);
                let rl = rem.len();
                proof {
                    let (f, rm) = decoded(old(self)@).unwrap();
                    assert(rem@ == rm);
                }
                self.start = self.end - rl;
                assert(self@ =~= decoded(old(self)@).unwrap().1);
                Ok(v)
            },
            Err(e) => {
                self.start = 0;
                self.end = 0;
                Err(e)
            },
        }
    }
}

/// Two frames in one delivery come out one at a time: decoding
/// `encoded(a) ‖ encoded(b)` gives `a` and leaves `encoded(b)`; decoding
/// that gives `b` and leaves nothing.
pub proof fn lemma_two_frames_in_one_delivery(a: Seq<u8>, b: Seq<u8>)
    requires
        a.len() <= MAX_PAYLOAD_LEN,
        b.len() <= MAX_PAYLOAD_LEN,
    ensures
        decoded(encoded(a) + encoded(b)) == Some((a, encoded(b))),
        decoded(encoded(b)) == Some((b, Seq::<u8>::empty())),
{
    lemma_first_of_two(a, encoded(b));
    lemma_round_trip(b);
}

} // verus!
