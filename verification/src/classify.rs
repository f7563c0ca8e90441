//! Content-based classification and the decision core of the receive
//! actor: what one event — control message, pulled packet, read failure,
//! or end-of-stream — makes the actor do.

use vstd::prelude::*;

use crate::bytebuf::bytes_view;
use crate::disco;
use crate::disco::{disco_key, disco_payload, is_disco};
use crate::net::{NetAddr, Network, NetworkSource, PacketMeta, ReadError, source_of};
use crate::split::QueuedPacket;
use crate::stun;
use crate::stun::is_stun_spec;

verus! {

/// The sole control message: a request for clean termination.
pub enum UdpActorMessage {
    Shutdown,
}

/// One raw read outcome bound for the transport consumer: either a
/// whole-call read failure, or one discrete datagram with its family tag
/// and metadata.
pub enum NetworkReadResult {
    Error(ReadError),
    Received { source: NetworkSource, meta: PacketMeta, bytes: bytes::Bytes },
}

/// A classified unit bound for the transport consumer.
pub enum IpPacket {
    Disco { source: Vec<u8>, sealed_box: bytes::Bytes, src: NetAddr },
    Forward(NetworkReadResult),
}

/// One event the actor's loop races: a control message, a packet pulled
/// from the pipeline, a whole-call read failure, or end-of-stream.
pub enum ActorEvent {
    Control(UdpActorMessage),
    Packet(QueuedPacket),
    ReadFailed(ReadError),
    EndOfStream,
}

/// What the actor decides to do with one event.
pub enum ActorAction {
    /// Terminate the loop cleanly.
    Stop,
    /// Do nothing: a NAT-probe packet while probe handling is disabled.
    Discard,
    /// Hand the raw packet and its source address to the NAT-probe
    /// consumer, best-effort: the send may be dropped, never blocks.
    SendProbe { packet: bytes::Bytes, src: NetAddr },
    /// Hand a classified unit to the transport consumer over the blocking
    /// channel; a failed send there terminates the loop.
    SendTransport(IpPacket),
}

/// The decision the actor owes to one event: shutdown and end-of-stream
/// terminate; a read failure is forwarded once as an error outcome; a
/// NAT-probe packet goes to the probe consumer only while enabled, and
/// never to the transport; a discovery datagram is forwarded with its
/// routing key and sealed payload; anything else is forwarded opaque,
/// tagged with the family it arrived through.
pub open spec fn action_matches(event: ActorEvent, probe_enabled: bool, r: ActorAction) -> bool {
    match event {
        ActorEvent::Control(UdpActorMessage::Shutdown) => r == ActorAction::Stop,
        ActorEvent::EndOfStream => r == ActorAction::Stop,
        ActorEvent::ReadFailed(err) => r == ActorAction::SendTransport(
            IpPacket::Forward(NetworkReadResult::Error(err)),
        ),
        ActorEvent::Packet(qp) => {
            let s = bytes_view(qp.packet);
            if is_stun_spec(s) {
                if probe_enabled {
                    r == (ActorAction::SendProbe { packet: qp.packet, src: qp.meta.addr })
                } else {
                    r == ActorAction::Discard
                }
            } else if is_disco(s) {
                &&& r matches ActorAction::SendTransport(ip)
                &&& ip matches IpPacket::Disco { source, sealed_box, src }
                &&& source@ == disco_key(s)
                &&& bytes_view(sealed_box) == disco_payload(s)
                &&& src == qp.meta.addr
            } else {
                r == ActorAction::SendTransport(
                    IpPacket::Forward(
                        NetworkReadResult::Received {
                            source: source_of(qp.network),
                            meta: qp.meta,
                            bytes: qp.packet,
                        },
                    ),
                )
            }
        },
    }
}

/// Decide what one event makes the actor do. The caller polls the control
/// channel before the pipeline, so this is only ever asked about one
/// event at a time, control first.
pub fn handle_event(event: ActorEvent, probe_enabled: bool) -> (r: ActorAction)
    ensures
        action_matches(event, probe_enabled, r),
{
    match event {
        ActorEvent::Control(UdpActorMessage::Shutdown) => ActorAction::Stop,
        ActorEvent::EndOfStream => ActorAction::Stop,
        ActorEvent::ReadFailed(err) => ActorAction::SendTransport(
            IpPacket::Forward(NetworkReadResult::Error(err)),
        ),
        ActorEvent::Packet(qp) => {
            if stun::is(&qp.packet) {
                if probe_enabled {
                    ActorAction::SendProbe { packet: qp.packet, src: qp.meta.addr }
                } else {
                    ActorAction::Discard
                }
            } else {
                match disco::source_and_box(&qp.packet) {
                    Some((source, sealed_box)) => ActorAction::SendTransport(
                        IpPacket::Disco { source, sealed_box, src: qp.meta.addr },
                    ),
                    None => {
                        let source = match qp.network {
                            Network::Ipv4 => NetworkSource::Ipv4,
                            Network::Ipv6 => NetworkSource::Ipv6,
                        };
                        ActorAction::SendTransport(
                            IpPacket::Forward(
                                NetworkReadResult::Received { source, meta: qp.meta, bytes: qp.packet },
                            ),
                        )
                    },
                }
            }
        },
    }
}

/// A packet whose bytes match the NAT-probe predicate is never handed to
/// the transport channel, whatever the probe-enable flag says.
pub proof fn lemma_probe_never_to_transport(
    qp: QueuedPacket,
    probe_enabled: bool,
    r: ActorAction,
)
    requires
        is_stun_spec(bytes_view(qp.packet)),
        action_matches(ActorEvent::Packet(qp), probe_enabled, r),
    ensures
        !(r matches ActorAction::SendTransport(_)),
{
}

/// A shutdown control message always decides immediate termination, so no
/// classification work is chosen for it; since the caller checks the
/// control channel before the pipeline, an instant with both ready
/// terminates without classifying the pending packet.
pub proof fn lemma_shutdown_stops(probe_enabled: bool, r: ActorAction)
    requires
        action_matches(ActorEvent::Control(UdpActorMessage::Shutdown), probe_enabled, r),
    ensures
        r == ActorAction::Stop,
{
}

} // verus!
