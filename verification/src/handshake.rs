//! The datagram of the raw-handshake probe: a QUIC version 1 Initial
//! packet that carries the start of a TLS ClientHello and is padded to the
//! smallest size that a QUIC server has to accept.
//!
//! The probe does not complete a handshake. It only tries to make a
//! listener answer, and takes any answer as a sign of life. A listener
//! may drop a datagram it does not like without a word, so that no answer
//! says less than a refused TCP connection does.

use vstd::prelude::*;

verus! {

/// Bytes in the datagram.
pub const DATAGRAM_SIZE: usize = 1200;

/// Bytes in each of the two connection identifiers.
pub const CONNECTION_ID_SIZE: usize = 8;

/// Bytes in the random field of the ClientHello.
pub const HELLO_RANDOM_SIZE: usize = 32;

/// The payload length that the packet header declares.
pub const DECLARED_PAYLOAD_LENGTH: u16 = 100;

/// The length that the CRYPTO frame declares.
pub const DECLARED_CRYPTO_LENGTH: u8 = 50;

/// Where the destination connection identifier starts.
pub const DESTINATION_ID_AT: usize = 6;

/// Where the source connection identifier starts.
pub const SOURCE_ID_AT: usize = 15;

/// Where the random field of the ClientHello starts.
pub const HELLO_RANDOM_AT: usize = 36;

/// `n` zero bytes.
pub open spec fn zeros(n: nat) -> Seq<u8> {
    Seq::new(n, |i: int| 0u8)
}

/// The two bytes that write `value` as a variable-length integer of
/// QUIC: the number in fourteen bits, after the bits `01`.
pub open spec fn varint2(value: u16) -> Seq<u8> {
    seq![(0x40 + value / 256) as u8, (value % 256) as u8]
}

/// The long header of an Initial packet of QUIC version 1 with a packet
/// number of one byte, up to the destination connection identifier.
pub open spec fn header_start() -> Seq<u8> {
    seq![0xC0u8, 0x00, 0x00, 0x00, 0x01, CONNECTION_ID_SIZE as u8]
}

/// What stands between the source connection identifier and the random
/// field: an empty token, the declared payload length, packet number 0, a
/// CRYPTO frame at offset 0 with its declared length, and the start of a
/// ClientHello of 46 bytes for TLS 1.2.
pub open spec fn hello_start() -> Seq<u8> {
    seq![0x00u8] + varint2(DECLARED_PAYLOAD_LENGTH) + seq![
        0x00u8,
        0x06,
        0x00,
        DECLARED_CRYPTO_LENGTH,
        0x01,
        0x00,
        0x00,
        0x2e,
        0x03,
        0x03,
    ]
}

/// What follows the random field: no session, the one cipher suite
/// TLS_AES_128_GCM_SHA256, and no compression.
pub open spec fn hello_end() -> Seq<u8> {
    seq![0x00u8, 0x00, 0x02, 0x13, 0x01, 0x01, 0x00]
}

/// The Initial packet with the given connection identifiers and random
/// field, before padding.
pub open spec fn initial_fields(destination: Seq<u8>, source: Seq<u8>, random: Seq<u8>) -> Seq<
    u8,
> {
    header_start() + destination + seq![CONNECTION_ID_SIZE as u8] + source + hello_start() + random
        + hello_end()
}

/// The datagram: the Initial packet, padded with zero bytes to
/// `DATAGRAM_SIZE`.
pub open spec fn initial_packet(destination: Seq<u8>, source: Seq<u8>, random: Seq<u8>) -> Seq<
    u8,
> {
    let fields = initial_fields(destination, source, random);
    fields + zeros((DATAGRAM_SIZE - fields.len()) as nat)
}

/// Whether `packet` is a probe datagram: the Initial packet of its own
/// connection identifiers and random field.
pub open spec fn is_probe_packet(packet: Seq<u8>) -> bool {
    &&& packet.len() == DATAGRAM_SIZE
    &&& packet == initial_packet(
        packet.subrange(DESTINATION_ID_AT as int, DESTINATION_ID_AT + CONNECTION_ID_SIZE),
        packet.subrange(SOURCE_ID_AT as int, SOURCE_ID_AT + CONNECTION_ID_SIZE),
        packet.subrange(HELLO_RANDOM_AT as int, HELLO_RANDOM_AT + HELLO_RANDOM_SIZE),
    )
}

/// Appends `bytes` to `out`.
fn append_bytes(out: &mut Vec<u8>, bytes: &[u8])
    ensures
        final(out)@ == old(out)@ + bytes@,
{
    let mut i: usize = 0;
    while i < bytes.len()
        invariant
            i <= bytes@.len(),
            out@ == old(out)@ + bytes@.take(i as int),
        decreases bytes@.len() - i,
    {
        out.push(bytes[i]);
        assert(old(out)@ + bytes@.take(i + 1) =~= (old(out)@ + bytes@.take(i as int)).push(
            bytes@[i as int],
        ));
        i += 1;
    }
    assert(bytes@.take(bytes@.len() as int) =~= bytes@);
}

/// Appends `value` as a two-byte variable-length integer.
fn append_varint2(out: &mut Vec<u8>, value: u16)
    requires
        value < 0x4000,
    ensures
        final(out)@ == old(out)@ + varint2(value),
{
    let field: u16 = 0x4000 | value;
    let high: u8 = (field >> 8) as u8;
    let low: u8 = (field & 0xFF) as u8;
    assert(high == 0x40 + value / 256 && low == value % 256) by (bit_vector)
        requires
            value < 0x4000,
            field == 0x4000 | value,
            high == (field >> 8) as u8,
            low == (field & 0xFF) as u8,
    ;
    out.push(high);
    out.push(low);
    assert(out@ =~= old(out)@ + varint2(value));
}

/// The probe datagram with the given connection identifiers and random
/// field.
pub fn build_initial_packet(
    destination: &[u8; 8],
    source: &[u8; 8],
    random: &[u8; 32],
) -> (packet: Vec<u8>)
    ensures
        packet@ == initial_packet(destination@, source@, random@),
        packet@.len() == DATAGRAM_SIZE,
        is_probe_packet(packet@),
{
    let mut packet: Vec<u8> = Vec::with_capacity(DATAGRAM_SIZE);
    // Long header, Initial, packet number of one byte; then the version.
    packet.push(0xC0);
    packet.push(0x00);
    packet.push(0x00);
    packet.push(0x00);
    packet.push(0x01);
    packet.push(CONNECTION_ID_SIZE as u8);
    assert(packet@ =~= header_start());
    append_bytes(&mut packet, destination.as_slice());
    packet.push(CONNECTION_ID_SIZE as u8);
    append_bytes(&mut packet, source.as_slice());
    let ghost ids = packet@;
    assert(ids =~= header_start() + destination@ + seq![CONNECTION_ID_SIZE as u8] + source@);
    // Token length, payload length, packet number.
    packet.push(0x00);
    append_varint2(&mut packet, DECLARED_PAYLOAD_LENGTH);
    packet.push(0x00);
    // CRYPTO frame: type, offset, length.
    packet.push(0x06);
    packet.push(0x00);
    packet.push(DECLARED_CRYPTO_LENGTH);
    // ClientHello: handshake type, length, version.
    let hello_prefix: [u8; 6] = [0x01, 0x00, 0x00, 0x2e, 0x03, 0x03];
    append_bytes(&mut packet, hello_prefix.as_slice());
    assert(packet@ =~= ids + hello_start());
    append_bytes(&mut packet, random.as_slice());
    // Session, cipher suites, compression.
    let hello_suffix: [u8; 7] = [0x00, 0x00, 0x02, 0x13, 0x01, 0x01, 0x00];
    append_bytes(&mut packet, hello_suffix.as_slice());
    let ghost fields = packet@;
    assert(fields =~= initial_fields(destination@, source@, random@));
    while packet.len() < DATAGRAM_SIZE
        invariant
            fields.len() <= packet@.len() <= DATAGRAM_SIZE,
            packet@ == fields + zeros((packet@.len() - fields.len()) as nat),
        decreases DATAGRAM_SIZE - packet@.len(),
    {
        let ghost before = packet@;
        packet.push(0);
        assert(packet@ =~= fields + zeros((before.len() + 1 - fields.len()) as nat));
    }
    proof {
        let p = packet@;
        assert(p.subrange(DESTINATION_ID_AT as int, DESTINATION_ID_AT + CONNECTION_ID_SIZE)
            =~= destination@);
        assert(p.subrange(SOURCE_ID_AT as int, SOURCE_ID_AT + CONNECTION_ID_SIZE) =~= source@);
        assert(p.subrange(HELLO_RANDOM_AT as int, HELLO_RANDOM_AT + HELLO_RANDOM_SIZE)
            =~= random@);
    }
    packet
}

/// A probe datagram with fresh connection identifiers and a fresh random
/// field.
pub fn probe_packet() -> (packet: Vec<u8>)
    ensures
        is_probe_packet(packet@),
{
    let destination: [u8; 8] = random_block();
    let source: [u8; 8] = random_block();
    let random: [u8; 32] = random_block();
    build_initial_packet(&destination, &source, &random)
}

/// Calls `rand::Rng::fill` with the generator of the thread, `rand::rng()`,
/// on a block of `N` zero bytes. Nothing is claimed of the bytes that come
/// back.
#[verifier::external_body]
fn random_block<const N: usize>() -> (block: [u8; N]) {
    let mut block = [0u8; N];
    rand::Rng::fill(&mut rand::rng(), &mut block[..]);
    block
}

} // verus!
