use bytes::Bytes;
use udp_mux::net::{NetAddr, NetIp, Network, PacketMeta};
use udp_mux::split::split_slot;

fn addr() -> NetAddr {
    NetAddr { ip: NetIp::V4 { ip: 0x7f00_0001 }, port: 4242 }
}

fn meta_for(len: usize, stride: usize) -> PacketMeta {
    PacketMeta { addr: addr(), len, stride, ecn: Some(3), dst_ip: Some(NetIp::V6 { ip: 1 }) }
}

fn patterned(len: usize) -> Vec<u8> {
    let mut v = Vec::with_capacity(len);
    for i in 0..len {
        v.push((i % 251) as u8);
    }
    v
}

#[test]
fn split_exact_multiple() {
    let raw = patterned(2000);
    let out = split_slot(Bytes::copy_from_slice(&raw), Network::Ipv4, meta_for(2000, 1000));
    assert_eq!(out.len(), 2);
    assert_eq!(&out[0].packet[..], &raw[0..1000]);
    assert_eq!(&out[1].packet[..], &raw[1000..2000]);
}

#[test]
fn split_coalesced_three_chunks() {
    let raw = patterned(3000);
    let out = split_slot(Bytes::copy_from_slice(&raw), Network::Ipv6, meta_for(3000, 1000));
    assert_eq!(out.len(), 3);
    let mut total = 0usize;
    for (i, p) in out.iter().enumerate() {
        assert_eq!(&p.packet[..], &raw[i * 1000..(i + 1) * 1000]);
        assert_eq!(p.meta.len, 1000);
        assert_eq!(p.meta.stride, 1000);
        assert!(p.meta.len <= 1000);
        total += p.packet.len();
    }
    assert_eq!(total, 3000);
}

#[test]
fn split_uneven_tail() {
    let raw = patterned(2500);
    let out = split_slot(Bytes::copy_from_slice(&raw), Network::Ipv4, meta_for(2500, 1000));
    assert_eq!(out.len(), 3);
    assert_eq!(out[0].packet.len(), 1000);
    assert_eq!(out[1].packet.len(), 1000);
    assert_eq!(out[2].packet.len(), 500);
    assert_eq!(&out[2].packet[..], &raw[2000..2500]);
    assert_eq!(out[2].meta.len, 500);
    assert_eq!(out[2].meta.stride, 500);
    let total: usize = out.iter().map(|p| p.packet.len()).sum();
    assert_eq!(total, 2500);
}

#[test]
fn split_stride_at_least_length_gives_one_packet() {
    let raw = patterned(500);
    let out = split_slot(Bytes::copy_from_slice(&raw), Network::Ipv4, meta_for(500, 1000));
    assert_eq!(out.len(), 1);
    assert_eq!(&out[0].packet[..], &raw[..]);
    assert_eq!(out[0].meta.len, 500);
    assert_eq!(out[0].meta.stride, 500);
}

#[test]
fn split_empty_slot_gives_nothing() {
    let out = split_slot(Bytes::new(), Network::Ipv4, meta_for(0, 1000));
    assert_eq!(out.len(), 0);
}

#[test]
fn split_inherits_metadata_and_family() {
    let raw = patterned(1500);
    let meta = meta_for(1500, 1000);
    let out = split_slot(Bytes::copy_from_slice(&raw), Network::Ipv6, meta);
    assert_eq!(out.len(), 2);
    for p in &out {
        assert_eq!(p.network, Network::Ipv6);
        assert_eq!(p.meta.addr, meta.addr);
        assert_eq!(p.meta.ecn, meta.ecn);
        assert_eq!(p.meta.dst_ip, meta.dst_ip);
        assert_eq!(p.meta.len, p.packet.len());
        assert_eq!(p.meta.stride, p.meta.len);
    }
}
