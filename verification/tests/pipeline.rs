use bytes::Bytes;
use udp_mux::actor::{PullStatus, UdpActor};
use udp_mux::classify::{handle_event, ActorAction, ActorEvent, IpPacket, NetworkReadResult};
use udp_mux::net::{NetAddr, NetIp, Network, NetworkSource, PacketMeta};

fn addr() -> NetAddr {
    NetAddr { ip: NetIp::V4 { ip: 0x0a00_0001 }, port: 7777 }
}

fn meta_for(len: usize, stride: usize) -> PacketMeta {
    PacketMeta { addr: addr(), len, stride, ecn: None, dst_ip: None }
}

fn patterned(len: usize) -> Vec<u8> {
    let mut v = Vec::with_capacity(len);
    for i in 0..len {
        v.push((i % 251) as u8);
    }
    v
}

#[test]
fn new_actor_sizes_buffer_pool() {
    let actor = UdpActor::new(3, 4);
    assert_eq!(actor.recv_buf.len(), 1480 * 3 * 4);
    assert_eq!(actor.chunk_size(4), 1480 * 3);
}

#[test]
fn pull_returns_buffered_items_in_order() {
    let mut actor = UdpActor::new(1, 1);
    let raw = patterned(2500);
    actor.ingest_slot(Bytes::copy_from_slice(&raw), Network::Ipv4, meta_for(2500, 1000));
    match actor.poll_pull(false) {
        PullStatus::Item(p) => assert_eq!(&p.packet[..], &raw[0..1000]),
        _ => panic!("first buffered packet expected"),
    }
    match actor.poll_pull(false) {
        PullStatus::Item(p) => assert_eq!(&p.packet[..], &raw[1000..2000]),
        _ => panic!("second buffered packet expected"),
    }
    match actor.poll_pull(false) {
        PullStatus::Item(p) => assert_eq!(&p.packet[..], &raw[2000..2500]),
        _ => panic!("third buffered packet expected"),
    }
    assert!(matches!(actor.poll_pull(false), PullStatus::NeedRead));
}

#[test]
fn closed_connection_ends_stream_before_queue_drain() {
    let mut actor = UdpActor::new(1, 1);
    let raw = patterned(1000);
    actor.ingest_slot(Bytes::copy_from_slice(&raw), Network::Ipv4, meta_for(1000, 1000));
    // Closure precedes the queue drain: no buffered item is returned.
    assert!(matches!(actor.poll_pull(true), PullStatus::EndOfStream));
    assert!(matches!(actor.poll_pull(true), PullStatus::EndOfStream));
    // The buffered item was skipped, not consumed.
    let front = actor.pop_front().expect("item still buffered");
    assert_eq!(&front.packet[..], &raw[..]);
}

#[test]
fn empty_queue_asks_for_a_read() {
    let mut actor = UdpActor::new(1, 1);
    assert!(matches!(actor.poll_pull(false), PullStatus::NeedRead));
    assert!(actor.pop_front().is_none());
}

/// Drain the pipeline as the actor loop would, classifying every pulled
/// packet, and collect what is sent to the transport channel.
fn drain_to_transport(actor: &mut UdpActor, probe_enabled: bool) -> Vec<IpPacket> {
    let mut sent = Vec::new();
    loop {
        match actor.poll_pull(false) {
            PullStatus::Item(p) => {
                match handle_event(ActorEvent::Packet(p), probe_enabled) {
                    ActorAction::SendTransport(ip) => sent.push(ip),
                    ActorAction::Stop => break,
                    _ => {}
                }
            }
            _ => break,
        }
    }
    sent
}

#[test]
fn end_to_end_disco_then_opaque() {
    let mut actor = UdpActor::new(1, 1);

    // Datagram 1: discovery prefix + 32-byte key + 10 bytes of payload.
    let mut first = vec![0x54u8, 0x53, 0xf0, 0x9f, 0x92, 0xac];
    let mut key = Vec::new();
    for i in 0..32u8 {
        key.push(0x80 + i);
    }
    first.extend_from_slice(&key);
    let payload = [0x5Au8; 10];
    first.extend_from_slice(&payload);

    // Datagram 2: 50 arbitrary bytes, neither probe nor discovery.
    let second = [0xC3u8; 50];

    actor.ingest_slot(
        Bytes::copy_from_slice(&first),
        Network::Ipv4,
        meta_for(first.len(), first.len()),
    );
    actor.ingest_slot(
        Bytes::copy_from_slice(&second),
        Network::Ipv4,
        meta_for(second.len(), second.len()),
    );

    let sent = drain_to_transport(&mut actor, true);
    assert_eq!(sent.len(), 2);
    match &sent[0] {
        IpPacket::Disco { source, sealed_box, src } => {
            assert_eq!(source, &key);
            assert_eq!(&sealed_box[..], &payload[..]);
            assert_eq!(*src, addr());
        }
        _ => panic!("first transport message must be the Discovery message"),
    }
    match &sent[1] {
        IpPacket::Forward(NetworkReadResult::Received { source, meta, bytes }) => {
            assert_eq!(*source, NetworkSource::Ipv4);
            assert_eq!(bytes.len(), 50);
            assert_eq!(&bytes[..], &second[..]);
            assert_eq!(meta.addr, addr());
        }
        _ => panic!("second transport message must be an opaque forward"),
    }
}

#[test]
fn end_to_end_coalesced_slot_fans_out_in_order() {
    let mut actor = UdpActor::new(1, 1);
    let raw = patterned(3000);
    actor.ingest_slot(Bytes::copy_from_slice(&raw), Network::Ipv6, meta_for(3000, 1000));

    let sent = drain_to_transport(&mut actor, true);
    assert_eq!(sent.len(), 3);
    for (i, ip) in sent.iter().enumerate() {
        match ip {
            IpPacket::Forward(NetworkReadResult::Received { source, meta, bytes }) => {
                assert_eq!(*source, NetworkSource::Ipv6);
                assert_eq!(bytes.len(), 1000);
                assert_eq!(&bytes[..], &raw[i * 1000..(i + 1) * 1000]);
                assert_eq!(meta.addr, addr());
            }
            _ => panic!("every coalesced chunk must be forwarded opaque"),
        }
    }
}
