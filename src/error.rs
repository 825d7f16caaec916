//! Error kinds of the transport layer.
use vstd::prelude::*;

verus! {

/// What went wrong.
///
/// `Io` and `ProtocolParse` are fatal to the port; `Framing` and `Overflow`
/// concern one call only; `TxFailure` and `RxFailure` mean that the task on
/// the other side of a channel has ended.
#[derive(Debug, Clone, Copy, PartialEq, Eq, Structural)]
pub enum Error {
    Io,
    ProtocolParse,
    Framing,
    Overflow,
    TxFailure,
    RxFailure,
}

} // verus!
