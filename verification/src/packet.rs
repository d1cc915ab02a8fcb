//! The packet codec: framing a header and a payload into one datagram-sized
//! buffer, and parsing one received datagram back into header and payload.

use vstd::prelude::*;

verus! {

/// The value of eight big-endian bytes, most significant first.
pub open spec fn spec_u64_from_be_bytes(s: Seq<u8>) -> u64
    recommends
        s.len() == 8,
{
    ((s[0] as u64) << 56 | (s[1] as u64) << 48 | (s[2] as u64) << 40 | (s[3] as u64) << 32 | (
    s[4] as u64) << 24 | (s[5] as u64) << 16 | (s[6] as u64) << 8 | (s[7] as u64))
}

/// The eight-byte big-endian representation of a value, most significant
/// byte first.
pub open spec fn spec_u64_to_be_bytes(x: u64) -> Seq<u8> {
    seq![
        ((x >> 56) & 0xff) as u8,
        ((x >> 48) & 0xff) as u8,
        ((x >> 40) & 0xff) as u8,
        ((x >> 32) & 0xff) as u8,
        ((x >> 24) & 0xff) as u8,
        ((x >> 16) & 0xff) as u8,
        ((x >> 8) & 0xff) as u8,
        (x & 0xff) as u8,
    ]
}

/// Reading back the eight big-endian bytes of a value gives the value.
pub proof fn lemma_u64_be_bytes_roundtrip(x: u64)
    ensures
        spec_u64_to_be_bytes(x).len() == 8,
        spec_u64_from_be_bytes(spec_u64_to_be_bytes(x)) == x,
{
    assert((x >> 56) & 0xff < 256 && (x >> 48) & 0xff < 256 && (x >> 40) & 0xff < 256 && (x
        >> 32) & 0xff < 256 && (x >> 24) & 0xff < 256 && (x >> 16) & 0xff < 256 && (x >> 8)
        & 0xff < 256 && x & 0xff < 256) by (bit_vector);
    assert(((x >> 56) & 0xff) << 56 | ((x >> 48) & 0xff) << 48 | ((x >> 40) & 0xff) << 40 | ((x
        >> 32) & 0xff) << 32 | ((x >> 24) & 0xff) << 24 | ((x >> 16) & 0xff) << 16 | ((x >> 8)
        & 0xff) << 8 | (x & 0xff) == x) by (bit_vector);
}

/// Appends the eight big-endian bytes of `x` to `out`.
fn push_u64_be_bytes(out: &mut Vec<u8>, x: u64)
    ensures
        final(out)@ == old(out)@ + spec_u64_to_be_bytes(x),
{
    proof {
        assert((x >> 56) & 0xff < 256 && (x >> 48) & 0xff < 256 && (x >> 40) & 0xff < 256 && (x
            >> 32) & 0xff < 256 && (x >> 24) & 0xff < 256 && (x >> 16) & 0xff < 256 && (x >> 8)
            & 0xff < 256 && x & 0xff < 256) by (bit_vector);
    }
    out.push(((x >> 56) & 0xff) as u8);
    out.push(((x >> 48) & 0xff) as u8);
    out.push(((x >> 40) & 0xff) as u8);
    out.push(((x >> 32) & 0xff) as u8);
    out.push(((x >> 24) & 0xff) as u8);
    out.push(((x >> 16) & 0xff) as u8);
    out.push(((x >> 8) & 0xff) as u8);
    out.push((x & 0xff) as u8);
    proof {
        assert(out@ =~= old(out)@ + spec_u64_to_be_bytes(x));
    }
}

/// Reads the first eight bytes of `s` as one big-endian value.
fn read_u64_be_bytes(s: &[u8]) -> (x: u64)
    requires
        s@.len() >= 8,
    ensures
        x == spec_u64_from_be_bytes(s@.subrange(0, 8)),
{
    let b0 = *vstd::slice::slice_index_get(s, 0);
    let b1 = *vstd::slice::slice_index_get(s, 1);
    let b2 = *vstd::slice::slice_index_get(s, 2);
    let b3 = *vstd::slice::slice_index_get(s, 3);
    let b4 = *vstd::slice::slice_index_get(s, 4);
    let b5 = *vstd::slice::slice_index_get(s, 5);
    let b6 = *vstd::slice::slice_index_get(s, 6);
    let b7 = *vstd::slice::slice_index_get(s, 7);
    (b0 as u64) << 56 | (b1 as u64) << 48 | (b2 as u64) << 40 | (b3 as u64) << 32 | (b4 as u64)
        << 24 | (b5 as u64) << 16 | (b6 as u64) << 8 | (b7 as u64)
}

/// Holds when `prefix` is an initial segment of `s`.
pub open spec fn seq_starts_with(s: Seq<u8>, prefix: Seq<u8>) -> bool {
    prefix.len() <= s.len() && s.subrange(0, prefix.len() as int) == prefix
}

/// The message variants a frame can carry, each with the byte length of the
/// payload it declares.
#[derive(Clone, Copy, Debug, PartialEq, Eq, Structural)]
pub enum VoipMessageType {
    /// A chunk of encoded audio of the declared length.
    VoiceMessage(u64),
    /// A chunk of encoded video of the declared length.
    VideoMessage(u64),
}

impl VoipMessageType {
    /// The tag under which this variant travels on the wire.
    pub open spec fn tag(self) -> u8 {
        match self {
            VoipMessageType::VoiceMessage(_) => 0,
            VoipMessageType::VideoMessage(_) => 1,
        }
    }

    /// The payload byte length this variant declares.
    pub open spec fn declared_len(self) -> u64 {
        match self {
            VoipMessageType::VoiceMessage(len) => len,
            VoipMessageType::VideoMessage(len) => len,
        }
    }
}

/// The header of one frame: the message variant with its declared payload
/// length, and the author's 128-bit identifier.
#[derive(Clone, Copy, Debug, PartialEq, Eq, Structural)]
pub struct VoipHeader {
    voip_message_type: VoipMessageType,
    author: u128,
}

/// A codec failure, observed either when a frame is built or when a received
/// datagram is parsed.
#[derive(Clone, Copy, Debug, PartialEq, Eq, Structural)]
pub enum CodecError {
    /// Serializing the header failed; the message cannot be framed.
    EncodeFailure,
    /// The datagram's length prefix exceeds the transmission ceiling; the
    /// datagram is dropped.
    OversizeDiscard,
    /// The header bytes do not parse; the datagram is dropped.
    DecodeFailure,
    /// Fewer bytes are present than the frame declares; the datagram is
    /// dropped.
    TruncatedFrame,
}

/// One framed message, ready to travel as a single datagram.
#[derive(Debug)]
pub struct VoipPacket(Vec<u8>);

impl View for VoipPacket {
    type V = Seq<u8>;

    closed spec fn view(&self) -> Seq<u8> {
        self.0@
    }
}

impl VoipPacket {
    /// Returns the inner buffer of this packet.
    pub fn inner(&self) -> (r: &[u8])
        ensures
            r@ == self@,
    {
        self.0.as_slice()
    }

    /// Whether this frame is small enough to leave as one datagram.  A frame
    /// over the ceiling must be detected here, before any send.
    pub fn fits_mtu(&self) -> (b: bool)
        ensures
            b == (self@.len() <= crate::MTU_MAX_PACKET_SIZE),
    {
        self.0.len() <= crate::MTU_MAX_PACKET_SIZE
    }
}

/// The canonical encoding of a header's three fields, as the structured
/// encoder emits it.
pub uninterp spec fn header_bytes(tag: u8, declared_len: u64, author: u128) -> Seq<u8>;

#[verifier::external_type_specification]
#[verifier::external_body]
pub struct ExEncodeError(rmp_serde::encode::Error);

#[verifier::external_type_specification]
#[verifier::external_body]
pub struct ExDecodeError(rmp_serde::decode::Error);

/// Relies on `rmp_serde::to_vec`: the bytes written for a
/// `(u8, u64, u128)` triple depend on the triple alone, and amount to a
/// one-byte array marker, two integers of at most two and nine bytes, and a
/// 16-byte binary blob with a two-byte marker - at most 30 bytes in all.
/// Writing integers and a small blob into a `Vec` succeeds; the sole failure
/// path is the output buffer's allocation failing, which this model leaves
/// aside, as vstd does for `Vec` growth.
#[verifier::external_body]
fn msgpack_encode_header(tag: u8, declared_len: u64, author: u128) -> (r: Result<
    Vec<u8>,
    rmp_serde::encode::Error,
>)
    ensures
        r is Ok,
        r matches Ok(v) ==> v@ == header_bytes(tag, declared_len, author) && v@.len() <= 30,
{
    rmp_serde::to_vec(&(tag, declared_len, author))
}

/// Relies on `rmp_serde::Deserializer` over an in-memory cursor: it reads one
/// `(u8, u64, u128)` value off the front of the input and reports how many
/// bytes that took.  The encoding is self-describing, so input that begins
/// with the encoding of such a triple parses back to exactly that triple,
/// consuming exactly the encoding.
#[verifier::external_body]
fn msgpack_decode_header(bytes: &[u8]) -> (r: Result<
    (u8, u64, u128, usize),
    rmp_serde::decode::Error,
>)
    ensures
        r matches Ok(t) ==> t.3 <= bytes@.len(),
        r is Err ==> forall|tag: u8, declared_len: u64, author: u128|
            #![trigger header_bytes(tag, declared_len, author)]
            !seq_starts_with(bytes@, header_bytes(tag, declared_len, author)),
        r matches Ok(t) ==> forall|tag: u8, declared_len: u64, author: u128|
            #![trigger header_bytes(tag, declared_len, author)]
            seq_starts_with(bytes@, header_bytes(tag, declared_len, author)) ==> (t.0 == tag
                && t.1 == declared_len && t.2 == author && t.3 == header_bytes(
                tag,
                declared_len,
                author,
            ).len()),
{
    let mut de = rmp_serde::decode::Deserializer::new(std::io::Cursor::new(bytes));
    let parsed: Result<(u8, u64, u128), rmp_serde::decode::Error> = serde::Deserialize::deserialize(
        &mut de,
    );
    match parsed {
        Ok((tag, declared_len, author)) => Ok((tag, declared_len, author, de.position() as usize)),
        Err(e) => Err(e),
    }
}

impl VoipHeader {
    /// The message variant recorded in this header.
    pub closed spec fn spec_message_type(self) -> VoipMessageType {
        self.voip_message_type
    }

    /// The author identifier recorded in this header.
    pub closed spec fn spec_author(self) -> u128 {
        self.author
    }

    /// The header [`VoipHeader::new`] returns for these arguments.
    pub closed spec fn spec_new(voip_message_type: VoipMessageType, author: u128) -> VoipHeader {
        VoipHeader { voip_message_type, author }
    }

    /// The canonical encoding of this header.
    pub open spec fn spec_enc(self) -> Seq<u8> {
        header_bytes(
            self.spec_message_type().tag(),
            self.spec_message_type().declared_len(),
            self.spec_author(),
        )
    }
}

/// The message variant a wire tag and a declared length stand for.
pub open spec fn variant_of_tag(tag: u8, declared_len: u64) -> VoipMessageType
    recommends
        tag <= 1,
{
    if tag == 0 {
        VoipMessageType::VoiceMessage(declared_len)
    } else {
        VoipMessageType::VideoMessage(declared_len)
    }
}

/// Whether `p` is an initial segment of `s`.
fn has_prefix(s: &[u8], p: &[u8]) -> (b: bool)
    ensures
        b == seq_starts_with(s@, p@),
{
    if p.len() > s.len() {
        return false;
    }
    let mut i: usize = 0;
    while i < p.len()
        invariant
            i <= p@.len() <= s@.len(),
            forall|k: int| 0 <= k < i ==> s@[k] == p@[k],
        decreases p@.len() - i,
    {
        if *vstd::slice::slice_index_get(s, i) != *vstd::slice::slice_index_get(p, i) {
            proof {
                assert(s@.subrange(0, p@.len() as int)[i as int] == s@[i as int]);
            }
            return false;
        }
        i = i + 1;
    }
    proof {
        assert(s@.subrange(0, p@.len() as int) =~= p@);
    }
    true
}

/// A header and a payload fit together when the header declares exactly the
/// payload's byte length.
pub open spec fn wf_message(h: VoipHeader, payload: Seq<u8>) -> bool {
    h.spec_message_type().declared_len() == payload.len()
}

/// The frame a header and a payload are put on the wire as: an eight-byte
/// big-endian prefix holding the byte length of everything after it, the
/// canonical header encoding, and the payload.
pub open spec fn spec_frame(h: VoipHeader, payload: Seq<u8>) -> Seq<u8> {
    spec_u64_to_be_bytes((h.spec_enc().len() + payload.len()) as u64) + h.spec_enc() + payload
}

/// How a frame decomposes into prefix, header encoding and payload.
proof fn lemma_frame_shape(h: VoipHeader, payload: Seq<u8>)
    requires
        h.spec_enc().len() + payload.len() <= u64::MAX,
    ensures
        spec_frame(h, payload).len() == 8 + h.spec_enc().len() + payload.len(),
        spec_frame(h, payload).subrange(0, 8) == spec_u64_to_be_bytes(
            (h.spec_enc().len() + payload.len()) as u64,
        ),
        spec_frame(h, payload).subrange(8, spec_frame(h, payload).len() as int) == h.spec_enc()
            + payload,
        spec_u64_from_be_bytes(spec_frame(h, payload).subrange(0, 8)) == h.spec_enc().len()
            + payload.len(),
        seq_starts_with(h.spec_enc() + payload, h.spec_enc()),
{
    let total = (h.spec_enc().len() + payload.len()) as u64;
    lemma_u64_be_bytes_roundtrip(total);
    assert(spec_frame(h, payload).subrange(0, 8) =~= spec_u64_to_be_bytes(total));
    assert(spec_frame(h, payload).subrange(8, spec_frame(h, payload).len() as int) =~= h.spec_enc()
        + payload);
    assert((h.spec_enc() + payload).subrange(0, h.spec_enc().len() as int) =~= h.spec_enc());
}

impl VoipHeader {
    /// Creates a header for a message of the given variant from the given
    /// author.
    pub fn new(voip_message_type: VoipMessageType, author: u128) -> (h: Self)
        ensures
            h == Self::spec_new(voip_message_type, author),
            h.spec_message_type() == voip_message_type,
            h.spec_author() == author,
    {
        Self { voip_message_type, author }
    }

    /// Fetches the message variant of this header.
    pub fn voip_message_type(&self) -> (t: &VoipMessageType)
        ensures
            *t == self.spec_message_type(),
    {
        &self.voip_message_type
    }

    /// Frames `data` behind this header: length prefix, canonical header
    /// encoding, then the payload bytes.  Framing always succeeds - the
    /// header's three plain fields always serialize - and the result is a
    /// pure function of header and data.  The ceiling on datagram size is the
    /// sender's check, not this function's: an oversize message still frames,
    /// untruncated.
    pub fn create_message_buffer(&self, data: &[u8]) -> (r: Result<VoipPacket, CodecError>)
        requires
            data@.len() + 30 <= u64::MAX,
        ensures
            r is Ok,
            r matches Ok(p) ==> {
                &&& p@ == spec_frame(*self, data@)
                &&& p@.len() == 8 + self.spec_enc().len() + data@.len()
                &&& self.spec_enc().len() <= 30
            },
    {
        let (tag, declared_len): (u8, u64) = match &self.voip_message_type {
            VoipMessageType::VoiceMessage(len) => (0u8, *len),
            VoipMessageType::VideoMessage(len) => (1u8, *len),
        };
        let mut serialized = match msgpack_encode_header(tag, declared_len, self.author) {
            Ok(v) => v,
            Err(_) => {
                return Err(CodecError::EncodeFailure);
            },
        };
        let total: u64 = serialized.len() as u64 + data.len() as u64;
        let mut buffer: Vec<u8> = Vec::new();
        push_u64_be_bytes(&mut buffer, total);
        buffer.append(&mut serialized);
        let mut payload = vstd::slice::slice_to_vec(data);
        buffer.append(&mut payload);
        proof {
            assert(buffer@ =~= spec_frame(*self, data@));
        }
        Ok(VoipPacket(buffer))
    }
}

/// Parses one complete received datagram back into its header and payload.
///
/// The whole frame sits in the one buffer a single receive call produced:
/// the first eight bytes are the length prefix, the canonical header encoding
/// follows, and the header's declared length cuts the payload out of the
/// rest.  A header region that is not the canonical encoding of any header
/// does not parse.  Every failure is a reason to drop this one datagram,
/// never to stop receiving.
pub fn decode(datagram: &[u8]) -> (r: Result<(VoipHeader, Vec<u8>), CodecError>)
    ensures
        datagram@.len() < 8 ==> r == Err::<(VoipHeader, Vec<u8>), CodecError>(
            CodecError::TruncatedFrame,
        ),
        datagram@.len() >= 8 ==> ((r == Err::<(VoipHeader, Vec<u8>), CodecError>(
            CodecError::OversizeDiscard,
        )) <==> spec_u64_from_be_bytes(datagram@.subrange(0, 8))
            > crate::MTU_MAX_PACKET_SIZE as u64),
        r matches Ok(m) ==> wf_message(m.0, m.1@),
        forall|h: VoipHeader, payload: Seq<u8>|
            #![trigger spec_frame(h, payload)]
            (datagram@ == spec_frame(h, payload) && wf_message(h, payload) && spec_frame(
                h,
                payload,
            ).len() <= crate::MTU_MAX_PACKET_SIZE) ==> (r matches Ok(m) && m.0 == h && m.1@
                == payload),
        forall|tag: u8, declared_len: u64, author: u128|
            #![trigger header_bytes(tag, declared_len, author)]
            (datagram@.len() >= 8 && spec_u64_from_be_bytes(datagram@.subrange(0, 8))
                <= crate::MTU_MAX_PACKET_SIZE as u64 && tag <= 1 && seq_starts_with(
                datagram@.subrange(8, datagram@.len() as int),
                header_bytes(tag, declared_len, author),
            ) && declared_len > datagram@.len() - 8 - header_bytes(
                tag,
                declared_len,
                author,
            ).len() as int) ==> r == Err::<(VoipHeader, Vec<u8>), CodecError>(
                CodecError::TruncatedFrame,
            ),
        forall|tag: u8, declared_len: u64, author: u128|
            #![trigger header_bytes(tag, declared_len, author)]
            (datagram@.len() >= 8 && spec_u64_from_be_bytes(datagram@.subrange(0, 8))
                <= crate::MTU_MAX_PACKET_SIZE as u64 && tag <= 1 && seq_starts_with(
                datagram@.subrange(8, datagram@.len() as int),
                header_bytes(tag, declared_len, author),
            ) && declared_len <= datagram@.len() - 8 - header_bytes(
                tag,
                declared_len,
                author,
            ).len() as int) ==> (r matches Ok(m) && m.0 == VoipHeader::spec_new(
                variant_of_tag(tag, declared_len),
                author,
            ) && m.1@ == datagram@.subrange(
                8 + header_bytes(tag, declared_len, author).len() as int,
                8 + header_bytes(tag, declared_len, author).len() as int + declared_len,
            )),
        (datagram@.len() >= 8 && spec_u64_from_be_bytes(datagram@.subrange(0, 8))
            <= crate::MTU_MAX_PACKET_SIZE as u64 && !(exists|tag: u8, declared_len: u64, author: u128|
            tag <= 1 && seq_starts_with(
                datagram@.subrange(8, datagram@.len() as int),
                #[trigger] header_bytes(tag, declared_len, author),
            ))) ==> r == Err::<(VoipHeader, Vec<u8>), CodecError>(CodecError::DecodeFailure),
{
    if datagram.len() < 8 {
        proof {
            assert forall|h: VoipHeader, payload: Seq<u8>|
                datagram@ == spec_frame(h, payload) && wf_message(h, payload) && spec_frame(
                    h,
                    payload,
                ).len() <= crate::MTU_MAX_PACKET_SIZE implies false by {
                lemma_frame_shape(h, payload);
            }
        }
        return Err(CodecError::TruncatedFrame);
    }
    let prefix = read_u64_be_bytes(datagram);
    if prefix > crate::MTU_MAX_PACKET_SIZE as u64 {
        proof {
            assert forall|h: VoipHeader, payload: Seq<u8>|
                datagram@ == spec_frame(h, payload) && wf_message(h, payload) && spec_frame(
                    h,
                    payload,
                ).len() <= crate::MTU_MAX_PACKET_SIZE implies false by {
                lemma_frame_shape(h, payload);
            }
        }
        return Err(CodecError::OversizeDiscard);
    }
    let rest = vstd::slice::slice_subrange(datagram, 8, datagram.len());
    proof {
        assert forall|h: VoipHeader, payload: Seq<u8>|
            datagram@ == spec_frame(h, payload) && wf_message(h, payload) && spec_frame(
                h,
                payload,
            ).len() <= crate::MTU_MAX_PACKET_SIZE implies seq_starts_with(
            rest@,
            header_bytes(
                h.spec_message_type().tag(),
                h.spec_message_type().declared_len(),
                h.spec_author(),
            ),
        ) by {
            lemma_frame_shape(h, payload);
            assert(rest@ =~= h.spec_enc() + payload);
        }
    }
    match msgpack_decode_header(rest) {
        Err(_) => Err(CodecError::DecodeFailure),
        Ok((tag, declared_len, author, n)) => {
            if tag > 1 {
                return Err(CodecError::DecodeFailure);
            }
            let voip_message_type = if tag == 0 {
                VoipMessageType::VoiceMessage(declared_len)
            } else {
                VoipMessageType::VideoMessage(declared_len)
            };
            // The wire must carry exactly the canonical encoding of the
            // header it parsed as.
            let reencoded = match msgpack_encode_header(tag, declared_len, author) {
                Ok(v) => v,
                Err(_) => {
                    return Err(CodecError::DecodeFailure);
                },
            };
            if !has_prefix(rest, reencoded.as_slice()) {
                proof {
                    assert forall|h: VoipHeader, payload: Seq<u8>|
                        datagram@ == spec_frame(h, payload) && wf_message(h, payload)
                            && spec_frame(h, payload).len()
                            <= crate::MTU_MAX_PACKET_SIZE implies false by {
                        lemma_frame_shape(h, payload);
                        assert(rest@ =~= h.spec_enc() + payload);
                    }
                }
                return Err(CodecError::DecodeFailure);
            }
            proof {
                // The parsed triple's canonical encoding sits at the front of
                // the header region, so the parser consumed exactly it.
                assert(n == header_bytes(tag, declared_len, author).len());
            }
            let rem_len = rest.len() - n;
            if (rem_len as u64) < declared_len {
                proof {
                    assert forall|h: VoipHeader, payload: Seq<u8>|
                        datagram@ == spec_frame(h, payload) && wf_message(h, payload)
                            && spec_frame(h, payload).len()
                            <= crate::MTU_MAX_PACKET_SIZE implies false by {
                        lemma_frame_shape(h, payload);
                        assert(rest@ =~= h.spec_enc() + payload);
                    }
                }
                return Err(CodecError::TruncatedFrame);
            }
            proof {
                assert(declared_len <= usize::MAX as u64);
            }
            let payload_slice = vstd::slice::slice_subrange(
                rest,
                n,
                n + declared_len as usize,
            );
            let payload = vstd::slice::slice_to_vec(payload_slice);
            let header = VoipHeader { voip_message_type, author };
            proof {
                assert forall|h: VoipHeader, p: Seq<u8>|
                    datagram@ == spec_frame(h, p) && wf_message(h, p) && spec_frame(h, p).len()
                        <= crate::MTU_MAX_PACKET_SIZE implies header == h && payload@ == p by {
                    lemma_frame_shape(h, p);
                    assert(rest@ =~= h.spec_enc() + p);
                    assert(payload@ =~= p);
                }
                assert(payload@ =~= datagram@.subrange(
                    8 + header_bytes(tag, declared_len, author).len() as int,
                    8 + header_bytes(tag, declared_len, author).len() as int + declared_len,
                ));
            }
            Ok((header, payload))
        },
    }
}

} // verus!

