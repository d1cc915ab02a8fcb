use silence::packet::{decode, CodecError, VoipHeader, VoipMessageType, VoipPacket};
use silence::MTU_MAX_PACKET_SIZE;

const AUTHOR: u128 = 0x0123_4567_89ab_cdef_0123_4567_89ab_cdef;

fn voice_frame(payload: &[u8]) -> VoipPacket {
    let header = VoipHeader::new(VoipMessageType::VoiceMessage(payload.len() as u64), AUTHOR);
    header.create_message_buffer(payload).unwrap()
}

#[test]
fn roundtrip_voice_message() {
    let header = VoipHeader::new(VoipMessageType::VoiceMessage(3), AUTHOR);
    let packet = header.create_message_buffer(&[1, 2, 3]).unwrap();
    assert!(packet.fits_mtu());
    let (decoded_header, payload) = decode(packet.inner()).unwrap();
    assert_eq!(decoded_header, header);
    assert!(matches!(
        decoded_header.voip_message_type(),
        VoipMessageType::VoiceMessage(3)
    ));
    assert_eq!(payload, vec![1, 2, 3]);
}

#[test]
fn roundtrip_video_message() {
    let header = VoipHeader::new(VoipMessageType::VideoMessage(4), u128::MAX);
    let packet = header.create_message_buffer(&[9, 8, 7, 6]).unwrap();
    let (decoded_header, payload) = decode(packet.inner()).unwrap();
    assert_eq!(decoded_header, header);
    assert_eq!(payload, vec![9, 8, 7, 6]);
}

#[test]
fn roundtrip_empty_payload() {
    let header = VoipHeader::new(VoipMessageType::VoiceMessage(0), 0);
    let packet = header.create_message_buffer(&[]).unwrap();
    let (decoded_header, payload) = decode(packet.inner()).unwrap();
    assert_eq!(decoded_header, header);
    assert_eq!(payload, Vec::<u8>::new());
}

#[test]
fn length_prefix_is_big_endian_remainder_length() {
    let packet = voice_frame(&[5; 10]);
    let frame = packet.inner();
    let mut prefix = [0u8; 8];
    prefix.copy_from_slice(&frame[..8]);
    assert_eq!(u64::from_be_bytes(prefix), (frame.len() - 8) as u64);
}

#[test]
fn oversize_frame_is_detected_before_send() {
    let packet = voice_frame(&[0; 1300]);
    assert!(packet.inner().len() > MTU_MAX_PACKET_SIZE);
    assert!(!packet.fits_mtu());
}

#[test]
fn small_frame_fits_mtu() {
    let packet = voice_frame(&[0; 16]);
    assert!(packet.fits_mtu());
}

#[test]
fn decode_discards_oversize_prefix() {
    let mut datagram = 1301u64.to_be_bytes().to_vec();
    datagram.extend_from_slice(&[0; 32]);
    assert_eq!(decode(&datagram), Err(CodecError::OversizeDiscard));
}

#[test]
fn decode_prefix_at_ceiling_is_not_oversize() {
    let mut datagram = 1300u64.to_be_bytes().to_vec();
    datagram.extend_from_slice(&[0xc1; 8]);
    assert_ne!(decode(&datagram), Err(CodecError::OversizeDiscard));
}

#[test]
fn decode_rejects_short_datagram() {
    assert_eq!(decode(&[1, 2, 3]), Err(CodecError::TruncatedFrame));
}

#[test]
fn decode_rejects_garbage_header() {
    let mut datagram = 9u64.to_be_bytes().to_vec();
    datagram.extend_from_slice(&[0xc1; 9]);
    assert_eq!(decode(&datagram), Err(CodecError::DecodeFailure));
}

#[test]
fn decode_rejects_noncanonical_header_encoding() {
    // The same header fields, but the tag is written with a widened integer
    // marker instead of the canonical single byte: the frame must not parse.
    let mut header_region = vec![0x93u8, 0xcc, 0x00, 0x01, 0xc4, 0x10];
    header_region.extend_from_slice(&[0u8; 16]);
    let mut datagram = ((header_region.len() + 1) as u64).to_be_bytes().to_vec();
    datagram.extend_from_slice(&header_region);
    datagram.push(1);
    assert_eq!(decode(&datagram), Err(CodecError::DecodeFailure));
}

#[test]
fn decode_rejects_truncated_payload() {
    let packet = voice_frame(&[1, 2, 3, 4]);
    let frame = packet.inner();
    let cut = &frame[..frame.len() - 2];
    assert_eq!(decode(cut), Err(CodecError::TruncatedFrame));
}

#[test]
fn decode_keeps_declared_and_actual_length_equal() {
    let packet = voice_frame(&[7; 42]);
    let (decoded_header, payload) = decode(packet.inner()).unwrap();
    match decoded_header.voip_message_type() {
        VoipMessageType::VoiceMessage(len) => assert_eq!(*len, payload.len() as u64),
        other => panic!("unexpected variant: {other:?}"),
    }
}
