//! The client transport's side: the decision logic of its background pump,
//! and the checked construction of outbound frames.

use crate::packet::{
    header_bytes, seq_starts_with, spec_frame, spec_u64_from_be_bytes, wf_message, CodecError,
    VoipHeader, VoipMessageType, VoipPacket,
};
use vstd::prelude::*;

verus! {

/// One thing the client pump can wake up on.
#[derive(Debug)]
pub enum ClientEvent {
    /// One whole datagram arrived from the connected peer.
    Datagram(Vec<u8>),
    /// The application queued a frame to go out.
    Outbound(VoipPacket),
}

/// What the client pump does in response, before waiting again.
#[derive(Debug)]
pub enum ClientAction {
    /// Queue the decoded message for the application.
    DeliverInbound(VoipHeader, Vec<u8>),
    /// Drop this one datagram for the given reason and carry on.
    Discard(CodecError),
    /// Issue exactly one send call with this frame's bytes.
    SendFrame(VoipPacket),
}

/// One decision of the client pump: what a single wake-up leads to.
///
/// There is no exit: a datagram that does not parse is dropped alone, and
/// the pump carries on.  An outbound frame leads to exactly one send.
pub fn client_pump_step(event: ClientEvent) -> (a: ClientAction)
    ensures
        event matches ClientEvent::Outbound(f) ==> (a matches ClientAction::SendFrame(g) && g
            == f),
        event matches ClientEvent::Datagram(d) ==> {
            &&& (a is DeliverInbound || a is Discard)
            &&& d@.len() < 8 ==> a == ClientAction::Discard(CodecError::TruncatedFrame)
            &&& d@.len() >= 8 ==> ((a == ClientAction::Discard(CodecError::OversizeDiscard))
                <==> spec_u64_from_be_bytes(d@.subrange(0, 8)) > crate::MTU_MAX_PACKET_SIZE
                    as u64)
            &&& (a matches ClientAction::DeliverInbound(h, p) ==> wf_message(h, p@))
            &&& forall|tag: u8, declared_len: u64, author: u128|
                #![trigger header_bytes(tag, declared_len, author)]
                (d@.len() >= 8 && spec_u64_from_be_bytes(d@.subrange(0, 8))
                    <= crate::MTU_MAX_PACKET_SIZE as u64 && tag <= 1 && seq_starts_with(
                    d@.subrange(8, d@.len() as int),
                    header_bytes(tag, declared_len, author),
                ) && declared_len > d@.len() - 8 - header_bytes(
                    tag,
                    declared_len,
                    author,
                ).len() as int) ==> a == ClientAction::Discard(CodecError::TruncatedFrame)
            &&& (d@.len() >= 8 && spec_u64_from_be_bytes(d@.subrange(0, 8))
                <= crate::MTU_MAX_PACKET_SIZE as u64 && !(exists|
                tag: u8,
                declared_len: u64,
                author: u128,
            |
                tag <= 1 && seq_starts_with(
                    d@.subrange(8, d@.len() as int),
                    #[trigger] header_bytes(tag, declared_len, author),
                ))) ==> a == ClientAction::Discard(CodecError::DecodeFailure)
            &&& forall|h: VoipHeader, payload: Seq<u8>|
                #![trigger spec_frame(h, payload)]
                (d@ == spec_frame(h, payload) && wf_message(h, payload) && spec_frame(
                    h,
                    payload,
                ).len() <= crate::MTU_MAX_PACKET_SIZE) ==> (a
                    matches ClientAction::DeliverInbound(hh, pp) && hh == h && pp@ == payload)
        },
{
    match event {
        ClientEvent::Outbound(frame) => ClientAction::SendFrame(frame),
        ClientEvent::Datagram(datagram) => {
            match crate::packet::decode(datagram.as_slice()) {
                Ok((header, payload)) => ClientAction::DeliverInbound(header, payload),
                Err(err) => ClientAction::Discard(err),
            }
        },
    }
}

/// Builds the frame for one manually assembled message and holds it to the
/// transmission ceiling: the frame comes back exactly when it fits, and a
/// frame that would exceed the ceiling is reported as oversize, never handed
/// on for sending.
pub fn build_checked_message(
    voip_message_type: VoipMessageType,
    author: u128,
    data: &[u8],
) -> (r: Result<VoipPacket, CodecError>)
    requires
        data@.len() + 30 <= u64::MAX,
    ensures
        r matches Ok(p) ==> {
            &&& p@ == spec_frame(VoipHeader::spec_new(voip_message_type, author), data@)
            &&& p@.len() <= crate::MTU_MAX_PACKET_SIZE
        },
        (r is Ok) <==> spec_frame(VoipHeader::spec_new(voip_message_type, author), data@).len()
            <= crate::MTU_MAX_PACKET_SIZE,
        r is Err ==> r == Err::<VoipPacket, CodecError>(CodecError::OversizeDiscard),
        spec_frame(VoipHeader::spec_new(voip_message_type, author), data@).len() == 8
            + VoipHeader::spec_new(voip_message_type, author).spec_enc().len() + data@.len(),
        VoipHeader::spec_new(voip_message_type, author).spec_enc().len() <= 30,
{
    let header = VoipHeader::new(voip_message_type, author);
    match header.create_message_buffer(data) {
        Ok(packet) => {
            if packet.fits_mtu() {
                Ok(packet)
            } else {
                Err(CodecError::OversizeDiscard)
            }
        },
        Err(e) => Err(e),  // framing always succeeds; this arm is unreachable
    }
}

} // verus!

