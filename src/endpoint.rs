use vstd::prelude::*;

verus! {

/// A concrete socket address, held as plain values: the peer actually
/// reached when the stream was opened.
#[derive(Clone, Copy, Debug, PartialEq, Eq)]
pub enum Endpoint {
    V4 { octets: [u8; 4], port: u16 },
    V6 { segments: [u16; 8], port: u16, flowinfo: u32, scope_id: u32 },
}

} // verus!
