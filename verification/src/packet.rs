//! Packet layout, signature and checksum for RFC 2544 test packets.
//!
//! A test packet is an Ethernet/IPv4/UDP frame whose UDP payload starts with
//! a 7-byte signature, followed by the sequence number, TX timestamp, stream
//! ID and flags.
//!
//! Offset  Size   Field
//! ------  ----   -----
//! 0       14     Ethernet header (dst MAC + src MAC + EtherType)
//! 14      20     IPv4 header
//! 34      8      UDP header
//! 42      7      Signature ("RFC2544")
//! 49      4      Sequence number
//! 53      8      TX timestamp (nanoseconds)
//! 61      4      Stream ID
//! 65      1      Flags
//! 66      N      Payload (RFC 2544 recommended pattern)

use vstd::prelude::*;

verus! {

/// Magic signature bytes of a test packet: the ASCII text "RFC2544".
pub const RFC2544_SIGNATURE: [u8; 7] = [0x52, 0x46, 0x43, 0x32, 0x35, 0x34, 0x34];

/// Size of the fixed part of a test packet, up to the payload.
pub const RFC2544_PACKET_HEADER_SIZE: usize = 66;

/// Ethernet header: 6 bytes dst MAC + 6 bytes src MAC + 2 bytes EtherType.
pub const ETHERNET_HEADER_SIZE: usize = 14;

/// IPv4 header: 20 bytes.
pub const IPV4_HEADER_SIZE: usize = 20;

/// UDP header: 8 bytes (src port + dst port + length + checksum).
pub const UDP_HEADER_SIZE: usize = 8;

/// Offset of the signature in a test packet: right after the three headers.
pub const SIGNATURE_OFFSET: usize = 42;

/// The signature as a sequence of bytes.
pub open spec fn signature_bytes() -> Seq<u8> {
    seq![0x52u8, 0x46u8, 0x43u8, 0x32u8, 0x35u8, 0x34u8, 0x34u8]
}

/// The signature fields of a test packet.
#[derive(Debug, Clone, Copy, PartialEq, Eq)]
pub struct PacketSignature {
    /// The 7-byte magic signature
    pub magic: [u8; 7],
    /// Monotonically increasing sequence number
    pub seq: u32,
    /// TX timestamp in nanoseconds
    pub timestamp_ns: u64,
    /// Stream ID for multi-stream tests
    pub stream_id: u32,
    /// Flags bitfield
    pub flags: u8,
}

impl Default for PacketSignature {
    /// The signature of the first packet of stream 0, sent at time 0.
    fn default() -> (s: Self)
        ensures
            s.magic@ == signature_bytes(),
            s.seq == 0,
            s.timestamp_ns == 0,
            s.stream_id == 0,
            s.flags == 0,
    {
        build_signature(0, 0, 0)
    }
}

/// Builds the signature fields of a test packet: the magic bytes, the given
/// sequence number, timestamp and stream, and no flags.
pub fn build_signature(seq: u32, timestamp_ns: u64, stream_id: u32) -> (s: PacketSignature)
    ensures
        s.magic@ == signature_bytes(),
        s.seq == seq,
        s.timestamp_ns == timestamp_ns,
        s.stream_id == stream_id,
        s.flags == 0,
{
    let s = PacketSignature { magic: RFC2544_SIGNATURE, seq, timestamp_ns, stream_id, flags: 0 };
    assert(s.magic@ =~= signature_bytes());
    s
}

/// Whether a frame of these bytes carries the test signature: the frame must
/// be at least `RFC2544_PACKET_HEADER_SIZE + 7` bytes long and hold the
/// signature at `SIGNATURE_OFFSET`.
pub open spec fn has_signature(buf: Seq<u8>) -> bool {
    &&& buf.len() >= RFC2544_PACKET_HEADER_SIZE + 7
    &&& buf.subrange(SIGNATURE_OFFSET as int, SIGNATURE_OFFSET + 7) == signature_bytes()
}

/// Validates that a frame carries the RFC 2544 test signature.
pub fn validate_signature(buf: &[u8]) -> (r: bool)
    ensures
        r == has_signature(buf@),
{
    if buf.len() < RFC2544_PACKET_HEADER_SIZE + 7 {
        return false;
    }
    assert(RFC2544_SIGNATURE@ =~= signature_bytes());
    let mut i: usize = 0;
    while i < 7
        invariant
            0 <= i <= 7,
            buf@.len() >= RFC2544_PACKET_HEADER_SIZE + 7,
            RFC2544_SIGNATURE@ == signature_bytes(),
            forall|j: int| 0 <= j < i ==> buf@[SIGNATURE_OFFSET + j] == signature_bytes()[j],
        decreases 7 - i,
    {
        if buf[SIGNATURE_OFFSET + i] != RFC2544_SIGNATURE[i] {
            assert(buf@.subrange(SIGNATURE_OFFSET as int, SIGNATURE_OFFSET + 7)[i as int]
                != signature_bytes()[i as int]);
            return false;
        }
        i = i + 1;
    }
    assert(buf@.subrange(SIGNATURE_OFFSET as int, SIGNATURE_OFFSET + 7) =~= signature_bytes());
    true
}

/// The byte of the RFC 2544 recommended payload pattern at index `i`: the
/// index modulo 16.
pub open spec fn pattern_byte(i: int) -> u8 {
    (i % 16) as u8
}

/// Number of payload bytes of a frame of the given size that follow the
/// Ethernet, IPv4 and UDP headers and the frame check sequence.
pub open spec fn udp_payload_len(frame_size: u32) -> int {
    frame_size - 46
}

/// Fills the buffer with the RFC 2544 recommended payload pattern: each byte
/// is its index masked to the low four bits. Only the first
/// `frame_size - 46` bytes are written (the UDP payload of such a frame);
/// bytes beyond it are left as they are.
pub fn build_payload_pattern(buf: &mut [u8], frame_size: u32)
    requires
        frame_size >= 46,
    ensures
        final(buf)@.len() == old(buf)@.len(),
        forall|i: int|
            0 <= i < old(buf)@.len() ==> #[trigger] final(buf)@[i] == if i < udp_payload_len(
                frame_size,
            ) {
                pattern_byte(i)
            } else {
                old(buf)@[i]
            },
        forall|i: int|
            0 <= i < old(buf)@.len() && i < frame_size - 46 ==> #[trigger] final(buf)@[i] == (i
                % 16) as u8,
        forall|i: int|
            0 <= i < old(buf)@.len() && i >= frame_size - 46 ==> #[trigger] final(buf)@[i] == old(
                buf,
            )@[i],
{
    let payload_len = (frame_size as usize) - 46;
    let n = if buf.len() < payload_len {
        buf.len()
    } else {
        payload_len
    };
    let mut i: usize = 0;
    while i < n
        invariant
            0 <= i <= n,
            n <= buf@.len(),
            n <= payload_len,
            payload_len == udp_payload_len(frame_size),
            n == buf@.len() || n == payload_len,
            buf@.len() == old(buf)@.len(),
            forall|j: int| 0 <= j < i ==> #[trigger] buf@[j] == pattern_byte(j),
            forall|j: int| i <= j < buf@.len() ==> #[trigger] buf@[j] == old(buf)@[j],
        decreases n - i,
    {
        let b = (i as u8) & 0x0f;
        assert(b == pattern_byte(i as int)) by {
            assert((i as u8) & 0x0f == (i % 16) as u8) by (bit_vector);
        }
        buf[i] = b;
        i = i + 1;
    }
}

/// Law: the pattern covers the whole UDP payload of a frame of any size,
/// `frame_size - 46` bytes (jumbo frames included), and byte `i` of the
/// pattern is `i` masked to its low four bits.
pub proof fn lemma_pattern_covers_payload(frame_size: u32, i: u64)
    requires
        frame_size >= 46,
    ensures
        udp_payload_len(frame_size) == frame_size - 46,
        pattern_byte(i as int) == (i as u8) & 0x0f,
        pattern_byte(i as int) < 16,
{
    assert((i as u8) & 0x0f == (i % 16) as u8) by (bit_vector);
}

/// Ethernet header for test packets.
#[derive(Debug, Clone, Copy)]
pub struct EthHeader {
    pub dst_mac: [u8; 6],
    pub src_mac: [u8; 6],
    /// 0x0800 = IPv4
    pub ether_type: u16,
}

/// UDP header for test packets.
#[derive(Debug, Clone, Copy)]
pub struct UdpHeader {
    pub src_port: u16,
    pub dst_port: u16,
    pub length: u16,
    pub checksum: u16,
}

/// UDP protocol number, summed into the pseudo-header.
pub const UDP_PROTOCOL: u32 = 0x11;

/// Sum of the UDP source and destination ports of test packets (both 42),
/// as it enters the checksum.
pub const TEST_PORTS_WORD: u32 = 0x0042;

/// Sum of the two 16-bit halves of a 32-bit word.
pub open spec fn halves_sum(x: u32) -> nat {
    (x % 0x10000) as nat + (x / 0x10000) as nat
}

/// Sum of the pseudo-header and UDP header words that enter the checksum:
/// the halves of both addresses, the protocol, the UDP length (once for the
/// pseudo-header and once for the UDP header) and the ports.
pub open spec fn header_word_sum(src_ip: u32, dst_ip: u32, udp_len: u16) -> nat {
    halves_sum(src_ip) + halves_sum(dst_ip) + UDP_PROTOCOL as nat + udp_len as nat + TEST_PORTS_WORD as nat
        + udp_len as nat
}

/// Sum of the 16-bit words of `payload` from index `i` on: each pair of bytes
/// makes the word `payload[i] | payload[i + 1] << 8`, and a final odd byte
/// counts on its own.
pub open spec fn payload_word_sum(payload: Seq<u8>, i: int) -> nat
    decreases payload.len() - i,
{
    if i < 0 || i >= payload.len() {
        0
    } else if i + 1 < payload.len() {
        payload[i] as nat + payload[i + 1] as nat * 256 + payload_word_sum(payload, i + 2)
    } else {
        payload[i] as nat
    }
}

/// The unfolded checksum sum of a test packet.
pub open spec fn checksum_sum(src_ip: u32, dst_ip: u32, udp_len: u16, payload: Seq<u8>) -> nat {
    header_word_sum(src_ip, dst_ip, udp_len) + payload_word_sum(payload, 0)
}

/// Folds the carries of a sum back into its low 16 bits until it fits in 16
/// bits (ones' complement end-around carry).
pub open spec fn fold_carries(x: nat) -> nat
    decreases x,
{
    if x < 0x10000 {
        x
    } else {
        fold_carries(x % 0x10000 + x / 0x10000)
    }
}

/// The UDP checksum of a test packet: the ones' complement of the folded sum.
pub open spec fn udp_checksum(src_ip: u32, dst_ip: u32, udp_len: u16, payload: Seq<u8>) -> u16 {
    (0xffff - fold_carries(checksum_sum(src_ip, dst_ip, udp_len, payload))) as u16
}

/// Payload words from `i` on, of a payload extended by the word `lo | hi << 8`
/// after an even number of bytes from `i`: the extension adds that word.
proof fn lemma_word_sum_append_word(p: Seq<u8>, lo: u8, hi: u8, i: int)
    requires
        0 <= i <= p.len(),
        (p.len() - i) % 2 == 0,
    ensures
        payload_word_sum(p + seq![lo, hi], i) == payload_word_sum(p, i) + lo + hi * 256,
    decreases p.len() - i,
{
    let q = p + seq![lo, hi];
    if i == p.len() {
        assert(q[i] == lo && q[i + 1] == hi);
        assert(payload_word_sum(q, i + 2) == 0);
    } else {
        assert(q[i] == p[i] && q[i + 1] == p[i + 1]);
        lemma_word_sum_append_word(p, lo, hi, i + 2);
    }
}

/// Payload words from `i` on, of a payload extended by one byte after an
/// even number of bytes from `i`: the odd last byte counts on its own.
proof fn lemma_word_sum_append_byte(p: Seq<u8>, b: u8, i: int)
    requires
        0 <= i <= p.len(),
        (p.len() - i) % 2 == 0,
    ensures
        payload_word_sum(p.push(b), i) == payload_word_sum(p, i) + b,
    decreases p.len() - i,
{
    let q = p.push(b);
    if i == p.len() {
        assert(q[i] == b);
    } else {
        assert(q[i] == p[i] && q[i + 1] == p[i + 1]);
        lemma_word_sum_append_byte(p, b, i + 2);
    }
}

/// Law: the checksum sums every word of the packet. The header words are
/// the two 16-bit halves of each address, the protocol 0x11, the ports word
/// 0x42 and the UDP length twice; an empty payload adds nothing; each pair
/// of payload bytes `lo, hi` adds the word `lo + 256 * hi`, wherever it
/// stands; an odd last byte adds itself.
pub proof fn lemma_checksum_sums_every_word(
    src_ip: u32,
    dst_ip: u32,
    udp_len: u16,
    payload: Seq<u8>,
    lo: u8,
    hi: u8,
)
    requires
        payload.len() % 2 == 0,
    ensures
        header_word_sum(src_ip, dst_ip, udp_len) == src_ip % 0x10000 + src_ip / 0x10000 + dst_ip
            % 0x10000 + dst_ip / 0x10000 + 0x11 + 0x42 + 2 * udp_len,
        checksum_sum(src_ip, dst_ip, udp_len, Seq::empty()) == header_word_sum(
            src_ip,
            dst_ip,
            udp_len,
        ),
        checksum_sum(src_ip, dst_ip, udp_len, payload + seq![lo, hi]) == checksum_sum(
            src_ip,
            dst_ip,
            udp_len,
            payload,
        ) + lo + 256 * hi,
        checksum_sum(src_ip, dst_ip, udp_len, payload.push(lo)) == checksum_sum(
            src_ip,
            dst_ip,
            udp_len,
            payload,
        ) + lo,
{
    lemma_word_sum_append_word(payload, lo, hi, 0);
    lemma_word_sum_append_byte(payload, lo, 0);
}

/// Law: when no carry wraps, the checksum is all ones minus the sum of the
/// packet's words, so appending a payload word lowers it by that word.
pub proof fn lemma_checksum_complements_sum(
    src_ip: u32,
    dst_ip: u32,
    udp_len: u16,
    payload: Seq<u8>,
    lo: u8,
    hi: u8,
)
    requires
        payload.len() % 2 == 0,
        checksum_sum(src_ip, dst_ip, udp_len, payload) + lo + 256 * hi < 0x10000,
    ensures
        udp_checksum(src_ip, dst_ip, udp_len, payload) == 0xffff - checksum_sum(
            src_ip,
            dst_ip,
            udp_len,
            payload,
        ),
        udp_checksum(src_ip, dst_ip, udp_len, payload + seq![lo, hi]) == udp_checksum(
            src_ip,
            dst_ip,
            udp_len,
            payload,
        ) - lo - 256 * hi,
{
    lemma_word_sum_append_word(payload, lo, hi, 0);
}

/// Folding carries always yields a 16-bit value.
pub proof fn lemma_fold_carries_bound(x: nat)
    ensures
        fold_carries(x) < 0x10000,
    decreases x,
{
    if x >= 0x10000 {
        lemma_fold_carries_bound(x % 0x10000 + x / 0x10000);
    }
}

/// Folding carries preserves the sum modulo 0xffff, the modulus of ones'
/// complement arithmetic; and it keeps a positive sum positive.
pub proof fn lemma_fold_carries_mod(x: nat)
    ensures
        fold_carries(x) % 0xffff == x % 0xffff,
        x > 0 ==> fold_carries(x) > 0,
    decreases x,
{
    if x >= 0x10000 {
        let q = x / 0x10000;
        let r = x % 0x10000;
        assert(x == 0x10000 * q + r);
        assert(x == 0xffff * q + (q + r));
        vstd::arithmetic::div_mod::lemma_mod_multiples_vanish(q as int, (q + r) as int, 0xffff);
        lemma_fold_carries_mod((r + q) as nat);
    }
}

/// Law: a receiver that sums the same header and payload words together with
/// the checksum, and folds the carries, gets all ones (0xffff): the defining
/// property of the Internet checksum, for every packet whose words do not all
/// sum to zero.
pub proof fn lemma_checksum_verifies(src_ip: u32, dst_ip: u32, udp_len: u16, payload: Seq<u8>)
    requires
        checksum_sum(src_ip, dst_ip, udp_len, payload) > 0,
    ensures
        fold_carries(
            checksum_sum(src_ip, dst_ip, udp_len, payload) + udp_checksum(
                src_ip,
                dst_ip,
                udp_len,
                payload,
            ) as nat,
        ) == 0xffff,
{
    let s = checksum_sum(src_ip, dst_ip, udp_len, payload);
    lemma_fold_carries_bound(s);
    lemma_fold_carries_mod(s);
    let f = fold_carries(s);
    let c = udp_checksum(src_ip, dst_ip, udp_len, payload);
    assert(c == 0xffff - f);
    let t = (s + c) as nat;
    // (s + c) and (f + c) = 0xffff agree modulo 0xffff
    assert(s % 0xffff == f % 0xffff);
    assert(t % 0xffff == 0) by {
        vstd::arithmetic::div_mod::lemma_add_mod_noop(s as int, c as int, 0xffff);
        vstd::arithmetic::div_mod::lemma_add_mod_noop(f as int, c as int, 0xffff);
        assert(f + c == 0xffff);
    }
    lemma_fold_carries_bound(t);
    lemma_fold_carries_mod(t);
    assert(fold_carries(t) % 0xffff == 0);
    assert(fold_carries(t) > 0);
}

/// Calculates the UDP checksum of a test packet from the source and
/// destination IPv4 addresses, the UDP length and the payload.
///
/// The sum is kept in 32 bits, so the words of the packet must not sum to
/// more than `u32::MAX` (payloads of up to about 128 KiB always qualify).
pub fn calc_udp_checksum(src_ip: u32, dst_ip: u32, udp_len: u16, payload: &[u8]) -> (r: u16)
    requires
        checksum_sum(src_ip, dst_ip, udp_len, payload@) <= u32::MAX,
    ensures
        r == udp_checksum(src_ip, dst_ip, udp_len, payload@),
{
    let mut sum: u32 = 0;

    // UDP pseudo-header
    assert((src_ip & 0xffff) == src_ip % 0x10000 && (src_ip >> 16) & 0xffff == src_ip / 0x10000)
        by (bit_vector);
    assert((dst_ip & 0xffff) == dst_ip % 0x10000 && (dst_ip >> 16) & 0xffff == dst_ip / 0x10000)
        by (bit_vector);
    sum = sum + (src_ip & 0xffff) + ((src_ip >> 16) & 0xffff);
    sum = sum + (dst_ip & 0xffff) + ((dst_ip >> 16) & 0xffff);
    sum = sum + UDP_PROTOCOL;
    sum = sum + udp_len as u32;

    // UDP header
    sum = sum + TEST_PORTS_WORD;
    sum = sum + udp_len as u32;
    assert(sum == header_word_sum(src_ip, dst_ip, udp_len));

    // Payload
    let mut i: usize = 0;
    while i < payload.len()
        invariant
            i <= payload@.len(),
            sum + payload_word_sum(payload@, i as int) == checksum_sum(
                src_ip,
                dst_ip,
                udp_len,
                payload@,
            ),
            checksum_sum(src_ip, dst_ip, udp_len, payload@) <= u32::MAX,
        decreases payload@.len() - i,
    {
        if i + 1 < payload.len() {
            let w = (payload[i] as u32) | ((payload[i + 1] as u32) << 8);
            let lo = payload[i];
            let hi = payload[i + 1];
            assert((lo as u32) | ((hi as u32) << 8) == lo + hi * 256) by (bit_vector);
            sum = sum + w;
            i = i + 2;
        } else {
            sum = sum + payload[i] as u32;
            i = i + 1;
        }
    }
    assert(payload_word_sum(payload@, i as int) == 0);

    // Fold carries
    while sum >> 16 != 0
        invariant
            fold_carries(sum as nat) == fold_carries(
                checksum_sum(src_ip, dst_ip, udp_len, payload@),
            ),
        decreases sum,
    {
        let s = sum;
        assert((s >> 16 != 0) == (s >= 0x10000)) by (bit_vector);
        assert(s & 0xffff == s % 0x10000 && s >> 16 == s / 0x10000) by (bit_vector);
        sum = (sum & 0xffff) + (sum >> 16);
    }
    let s = sum;
    assert((s >> 16 == 0) ==> s < 0x10000) by (bit_vector);
    assert(s < 0x10000 ==> (!s) as u16 == (0xffff - s) as u16) by (bit_vector);
    !sum as u16
}

/// The clamped frame size used to size batches: between the smallest and the
/// largest standard frame.
pub open spec fn batch_frame_size(frame_size: u32) -> u32 {
    if frame_size < 64 {
        64
    } else if frame_size > 1518 {
        1518
    } else {
        frame_size
    }
}

/// The batch size for a frame size: 64-byte frames get batches of 128 and the
/// batch shrinks in inverse proportion to the frame up to 1518 bytes, where
/// (as documented) the standard maximum frame is sent in batches of 64.
pub open spec fn batch_size_for(frame_size: u32) -> u32 {
    let c = batch_frame_size(frame_size);
    if c == 1518 {
        64
    } else {
        (8192int / (c as int)) as u32
    }
}

/// Optimal batch size for a 400G interface based on frame size.
/// Smaller frames get larger batches: 64 bytes -> 128, 128 -> 64, 256 -> 32,
/// and the standard maximum frame of 1518 bytes (and anything larger) -> 64.
pub fn optimal_batch_size(frame_size: u32) -> (r: u32)
    ensures
        r == batch_size_for(frame_size),
        1 <= r <= 128,
{
    let base: u32 = 128;
    let clamped = if frame_size < 64 {
        64
    } else if frame_size > 1518 {
        1518
    } else {
        frame_size
    };
    if clamped == 1518 {
        64
    } else {
        assert(8192int / (clamped as int) <= 128 && 8192int / (clamped as int) >= 1) by (nonlinear_arith)
            requires
                64 <= clamped <= 1518,
        ;
        base * 64 / clamped
    }
}

/// Law: among frames below the standard maximum of 1518 bytes, a larger
/// frame never gets a larger batch. (The documented batch of 64 for the
/// 1518-byte maximum frame breaks this between 1280 and 1518 bytes.)
pub proof fn lemma_batch_size_monotone(a: u32, b: u32)
    requires
        a <= b < 1518,
    ensures
        batch_size_for(b) <= batch_size_for(a),
{
    let ca = batch_frame_size(a) as int;
    let cb = batch_frame_size(b) as int;
    assert(64 <= ca <= cb < 1518);
    vstd::arithmetic::div_mod::lemma_div_is_ordered_by_denominator(8192, ca, cb);
}

} // verus!
