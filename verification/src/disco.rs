//! Peer-discovery handshake detection: a pure parser that recognizes the
//! fixed discovery wire prefix and, on a match, extracts the routing key
//! and a zero-copy view of the sealed payload.

use vstd::prelude::*;

use crate::bytebuf::{bytes_as_slice, bytes_slice, bytes_view};
use vstd::slice::{slice_index_get, slice_subrange, slice_to_vec};

verus! {

/// Length in bytes of the routing key that follows the discovery prefix.
pub const KEY_LEN: usize = 32;

/// Length in bytes of the fixed discovery wire prefix.
pub const MAGIC_LEN: usize = 6;

/// Does this byte sequence open with the discovery wire prefix and carry
/// a full routing key after it?
pub open spec fn is_disco(s: Seq<u8>) -> bool {
    &&& s.len() >= MAGIC_LEN + KEY_LEN
    &&& s[0] == 0x54u8
    &&& s[1] == 0x53u8
    &&& s[2] == 0xf0u8
    &&& s[3] == 0x9fu8
    &&& s[4] == 0x92u8
    &&& s[5] == 0xacu8
}

/// The routing key bytes of a discovery datagram.
pub open spec fn disco_key(s: Seq<u8>) -> Seq<u8> {
    s.subrange(MAGIC_LEN as int, MAGIC_LEN + KEY_LEN)
}

/// The sealed payload of a discovery datagram: everything after the key.
pub open spec fn disco_payload(s: Seq<u8>) -> Seq<u8> {
    s.subrange(MAGIC_LEN + KEY_LEN, s.len() as int)
}

/// If the datagram opens with the discovery prefix, return its routing key
/// (copied) and a zero-copy view of the sealed payload that follows it.
pub fn source_and_box(packet: &bytes::Bytes) -> (r: Option<(Vec<u8>, bytes::Bytes)>)
    ensures
        r is Some <==> is_disco(bytes_view(*packet)),
        (r matches Some((key, sealed)) ==> {
            &&& key@ == disco_key(bytes_view(*packet))
            &&& key@.len() == KEY_LEN
            &&& bytes_view(sealed) == disco_payload(bytes_view(*packet))
        }),
{
    let s: &[u8] = bytes_as_slice(packet);
    if s.len() < MAGIC_LEN + KEY_LEN {
        return None;
    }
    let m0: u8 = *slice_index_get(s, 0);
    let m1: u8 = *slice_index_get(s, 1);
    let m2: u8 = *slice_index_get(s, 2);
    let m3: u8 = *slice_index_get(s, 3);
    let m4: u8 = *slice_index_get(s, 4);
    let m5: u8 = *slice_index_get(s, 5);
    if !(m0 == 0x54 && m1 == 0x53 && m2 == 0xf0 && m3 == 0x9f && m4 == 0x92 && m5 == 0xac) {
        return None;
    }
    let key_slice: &[u8] = slice_subrange(s, MAGIC_LEN, MAGIC_LEN + KEY_LEN);
    let key: Vec<u8> = slice_to_vec(key_slice);
    let sealed: bytes::Bytes = bytes_slice(packet, MAGIC_LEN + KEY_LEN, s.len());
    Some((key, sealed))
}

} // verus!
