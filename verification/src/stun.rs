//! NAT-probe (STUN-style) detection: a pure content predicate over the
//! bytes of one datagram.

use vstd::prelude::*;

use crate::bytebuf::{bytes_as_slice, bytes_view};
use vstd::slice::slice_index_get;

verus! {

/// Byte shape of a NAT-probe message: at least a 20-byte header, the two
/// top bits of the first byte clear, and the probe magic cookie in
/// bytes 4 through 7.
pub open spec fn is_stun_spec(s: Seq<u8>) -> bool {
    &&& s.len() >= 20
    &&& s[0] < 0x40
    &&& s[4] == 0x21u8
    &&& s[5] == 0x12u8
    &&& s[6] == 0xa4u8
    &&& s[7] == 0x42u8
}

/// Does this datagram carry a NAT-probe message?
pub fn is(packet: &bytes::Bytes) -> (r: bool)
    ensures
        r == is_stun_spec(bytes_view(*packet)),
{
    let s: &[u8] = bytes_as_slice(packet);
    if s.len() < 20 {
        return false;
    }
    let b0: u8 = *slice_index_get(s, 0);
    let b4: u8 = *slice_index_get(s, 4);
    let b5: u8 = *slice_index_get(s, 5);
    let b6: u8 = *slice_index_get(s, 6);
    let b7: u8 = *slice_index_get(s, 7);
    b0 < 0x40 && b4 == 0x21 && b5 == 0x12 && b6 == 0xa4 && b7 == 0x42
}

} // verus!
