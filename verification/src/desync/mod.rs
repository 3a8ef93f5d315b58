//! Packet desynchronisation: what a technique does to a packet, and the IPv4
//! header arithmetic that the techniques share.

use bytes::Bytes;
use vstd::prelude::*;

pub mod ip;
mod wire;

verus! {

// ---------------------------------------------------------------------------
// Injected packets
// ---------------------------------------------------------------------------

/// `bytes::Bytes`, the shared buffer that an injected packet travels in.
#[verifier::external_type_specification]
#[verifier::external_body]
pub struct ExBytes(Bytes);

/// The bytes that a shared buffer holds.
pub uninterp spec fn bytes_of(b: Bytes) -> Seq<u8>;

/// `Bytes::from` on a vector: the buffer holds the bytes of the vector.
#[verifier::external_body]
pub(crate) fn share(v: Vec<u8>) -> (b: Bytes)
    ensures
        bytes_of(b) == v@,
{
    Bytes::from(v)
}

// ---------------------------------------------------------------------------
// The outcome of a technique
// ---------------------------------------------------------------------------

/// What a technique decided about a packet.
pub struct DesyncResult {
    /// The packet to send in its place.
    pub modified: Option<Vec<u8>>,
    /// Further packets to send, in this order.
    pub inject: Vec<Bytes>,
    /// The packet is to be dropped.
    pub drop: bool,
}

/// The decision as plain data.
#[verifier::ext_equal]
pub struct Effect {
    pub modified: Option<Seq<u8>>,
    pub inject: Seq<Seq<u8>>,
    pub drop: bool,
}

impl View for DesyncResult {
    type V = Effect;

    open spec fn view(&self) -> Effect {
        Effect {
            modified: match self.modified {
                Some(v) => Some(v@),
                None => None,
            },
            inject: self.inject@.map_values(|b: Bytes| bytes_of(b)),
            drop: self.drop,
        }
    }
}

impl Effect {
    /// The packet goes on as it is.
    pub open spec fn passthrough() -> Effect {
        Effect { modified: None, inject: Seq::empty(), drop: false }
    }

    /// The packet goes on as `packet`.
    pub open spec fn modified(packet: Seq<u8>) -> Effect {
        Effect { modified: Some(packet), inject: Seq::empty(), drop: false }
    }

    /// The packet goes on as it is, and `packets` are sent too.
    pub open spec fn inject(packets: Seq<Seq<u8>>) -> Effect {
        Effect { modified: None, inject: packets, drop: false }
    }

    /// The packet is dropped.
    pub open spec fn dropped() -> Effect {
        Effect { modified: None, inject: Seq::empty(), drop: true }
    }
}

impl DesyncResult {
    /// The packet goes on as it is.
    pub fn passthrough() -> (r: DesyncResult)
        ensures
            r@ == Effect::passthrough(),
    {
        let r = DesyncResult { modified: None, inject: Vec::new(), drop: false };
        assert(r@ =~= Effect::passthrough());
        r
    }

    /// The packet goes on as `packet`.
    pub fn modified_only(packet: Vec<u8>) -> (r: DesyncResult)
        ensures
            r@ == Effect::modified(packet@),
    {
        let r = DesyncResult { modified: Some(packet), inject: Vec::new(), drop: false };
        assert(r@ =~= Effect::modified(packet@));
        r
    }

    /// The packet goes on as it is, and `packets` are sent too.
    pub fn inject_many(packets: Vec<Bytes>) -> (r: DesyncResult)
        ensures
            r@ == Effect::inject(packets@.map_values(|b: Bytes| bytes_of(b))),
    {
        DesyncResult { modified: None, inject: packets, drop: false }
    }

    /// The packet is dropped.
    pub fn drop_packet() -> (r: DesyncResult)
        ensures
            r@ == Effect::dropped(),
    {
        let r = DesyncResult { modified: None, inject: Vec::new(), drop: true };
        assert(r@ =~= Effect::dropped());
        r
    }
}

// ---------------------------------------------------------------------------
// The IPv4 header
// ---------------------------------------------------------------------------

/// The big-endian 16-bit number at `at`.
pub open spec fn be16(p: Seq<u8>, at: int) -> int {
    p[at] * 256 + p[at + 1]
}

/// `p` with the big-endian number `x` at `at`.
pub open spec fn put_be16(p: Seq<u8>, at: int, x: int) -> Seq<u8> {
    p.update(at, (x / 256) as u8).update(at + 1, (x % 256) as u8)
}

/// The length of the header in bytes, as the header gives it.
pub open spec fn header_len(p: Seq<u8>) -> int {
    (p[0] % 16) * 4
}

/// `p` starts with a complete IPv4 header.
pub open spec fn is_ipv4(p: Seq<u8>) -> bool {
    &&& p.len() >= 20
    &&& p[0] / 16 == 4
    &&& 20 <= header_len(p) <= p.len()
}

/// What follows the header.
pub open spec fn payload_of(p: Seq<u8>) -> Seq<u8> {
    p.skip(header_len(p))
}

/// The identification of the packet.
pub open spec fn identification_of(p: Seq<u8>) -> int {
    be16(p, 4)
}

/// The time to live.
pub open spec fn ttl_of(p: Seq<u8>) -> u8 {
    p[8]
}

/// The number of the protocol that the payload speaks.
pub open spec fn protocol_of(p: Seq<u8>) -> u8 {
    p[9]
}

/// The source address.
pub open spec fn source_of(p: Seq<u8>) -> Seq<u8> {
    p.subrange(12, 16)
}

/// The destination address.
pub open spec fn destination_of(p: Seq<u8>) -> Seq<u8> {
    p.subrange(16, 20)
}

/// The fields of an IPv4 header that the techniques read.
pub struct IpHeader {
    pub header_len: usize,
    pub identification: u16,
    pub ttl: u8,
    pub protocol: u8,
    pub src: [u8; 4],
    pub dst: [u8; 4],
}

impl IpHeader {
    /// The fields are those of `p`.
    pub open spec fn reads(self, p: Seq<u8>) -> bool {
        &&& self.header_len == header_len(p)
        &&& self.identification == identification_of(p)
        &&& self.ttl == ttl_of(p)
        &&& self.protocol == protocol_of(p)
        &&& self.src@ == source_of(p)
        &&& self.dst@ == destination_of(p)
    }
}

/// Reads the header of an IPv4 packet; nothing where the packet does not start
/// with a complete one.
pub fn parse_ip_header(packet: &[u8]) -> (header: Option<IpHeader>)
    ensures
        header is Some <==> is_ipv4(packet@),
        header matches Some(h) ==> h.reads(packet@),
{
    if packet.len() < 20 || packet[0] / 16 != 4 {
        return None;
    }
    let len: usize = (packet[0] % 16) as usize * 4;
    if len < 20 || len > packet.len() {
        return None;
    }
    let header = IpHeader {
        header_len: len,
        identification: packet[4] as u16 * 256 + packet[5] as u16,
        ttl: packet[8],
        protocol: packet[9],
        src: [packet[12], packet[13], packet[14], packet[15]],
        dst: [packet[16], packet[17], packet[18], packet[19]],
    };
    assert(header.src@ =~= source_of(packet@));
    assert(header.dst@ =~= destination_of(packet@));
    Some(header)
}

// ---------------------------------------------------------------------------
// The header checksum
// ---------------------------------------------------------------------------

/// The ones' complement sum of 16-bit words whose plain sum is `n`.
pub open spec fn ones_complement(n: int) -> int {
    if n == 0 {
        0
    } else {
        (n - 1) % 0xffff + 1
    }
}

/// The plain sum of the words of a 20-byte header without its checksum.
pub open spec fn header_sum(p: Seq<u8>) -> int {
    be16(p, 0) + be16(p, 2) + be16(p, 4) + be16(p, 6) + be16(p, 8) + be16(p, 12) + be16(p, 14)
        + be16(p, 16) + be16(p, 18)
}

/// The checksum that belongs to a 20-byte header.
pub open spec fn checksum_of(p: Seq<u8>) -> int {
    0xffff - ones_complement(header_sum(p))
}

/// The packet with the checksum that belongs to its first 20 bytes.
pub open spec fn with_checksum(p: Seq<u8>) -> Seq<u8> {
    put_be16(p, 10, checksum_of(p))
}

/// A receiver that adds up all words of the 20-byte header finds no error.
pub open spec fn checksum_verifies(p: Seq<u8>) -> bool {
    ones_complement(header_sum(p) + be16(p, 10)) == 0xffff
}

/// A packet with a recomputed checksum passes the receiver's test, and nothing
/// but the checksum was changed.
pub proof fn recomputed_checksum_verifies(p: Seq<u8>)
    requires
        p.len() >= 20,
    ensures
        checksum_verifies(with_checksum(p)),
        with_checksum(p).len() == p.len(),
        forall|i: int|
            0 <= i < p.len() && i != 10 && i != 11 ==> #[trigger] with_checksum(p)[i] == p[i],
{
    let q = with_checksum(p);
    assert(header_sum(q) == header_sum(p));
    assert(be16(q, 10) == checksum_of(p));
}

/// Recomputing a checksum twice is recomputing it once.
pub proof fn recomputing_settles(p: Seq<u8>)
    requires
        p.len() >= 20,
    ensures
        with_checksum(with_checksum(p)) == with_checksum(p),
{
    let q = with_checksum(p);
    assert(header_sum(q) == header_sum(p));
    assert(with_checksum(q) =~= q);
}

/// The checksum of the 20-byte header at the start of `header`. The checksum
/// field itself counts as zero.
pub fn ipv4_checksum(header: &[u8]) -> (sum: u16)
    requires
        header@.len() >= 20,
    ensures
        sum == checksum_of(header@),
{
    let total: u32 = word_at(header, 0) + word_at(header, 2) + word_at(header, 4) + word_at(
        header,
        6,
    ) + word_at(header, 8) + word_at(header, 12) + word_at(header, 14) + word_at(header, 16)
        + word_at(header, 18);
    let once: u32 = total / 0x1_0000 + total % 0x1_0000;
    let twice: u32 = once / 0x1_0000 + once % 0x1_0000;
    (0xffff - twice) as u16
}

/// The big-endian word at `at`.
fn word_at(p: &[u8], at: usize) -> (w: u32)
    requires
        at + 1 < p@.len(),
    ensures
        w == be16(p@, at as int),
        w <= 0xffff,
{
    p[at] as u32 * 256 + p[at + 1] as u32
}

/// Writes a big-endian word.
pub(crate) fn write_be16(p: &mut Vec<u8>, at: usize, x: u16)
    requires
        at + 1 < old(p).len(),
    ensures
        final(p)@ == put_be16(old(p)@, at as int, x as int),
{
    p.set(at, (x / 256) as u8);
    p.set(at + 1, (x % 256) as u8);
}

/// Gives the packet the checksum that belongs to its header.
pub(crate) fn refresh_checksum(p: &mut Vec<u8>)
    requires
        old(p)@.len() >= 20,
    ensures
        final(p)@ == with_checksum(old(p)@),
{
    let sum: u16 = ipv4_checksum(p.as_slice());
    write_be16(p, 10, sum);
}

/// A copy of the packet.
pub(crate) fn copy_of(packet: &[u8]) -> (copy: Vec<u8>)
    ensures
        copy@ == packet@,
{
    let mut copy: Vec<u8> = Vec::new();
    let mut i: usize = 0;
    while i < packet.len()
        invariant
            i <= packet@.len(),
            copy@ == packet@.take(i as int),
        decreases packet@.len() - i,
    {
        copy.push(packet[i]);
        i += 1;
        assert(packet@.take(i as int) =~= packet@.take(i - 1).push(packet@[i - 1]));
    }
    assert(packet@.take(i as int) =~= packet@);
    copy
}

// ---------------------------------------------------------------------------
// Laws
// ---------------------------------------------------------------------------

/// The four decisions differ in what is sent: a packet that passes sends nothing
/// else and is kept, a modified one is replaced, an injection adds its packets
/// to the one that is kept, and only a drop keeps a packet back.
pub proof fn decisions_send_what_they_say(packet: Seq<u8>, packets: Seq<Seq<u8>>)
    ensures
        Effect::passthrough().modified is None,
        Effect::passthrough().inject.len() == 0,
        !Effect::passthrough().drop,
        Effect::modified(packet).modified == Some(packet),
        Effect::modified(packet).inject.len() == 0,
        !Effect::modified(packet).drop,
        Effect::inject(packets).modified is None,
        Effect::inject(packets).inject == packets,
        !Effect::inject(packets).drop,
        Effect::dropped().modified is None,
        Effect::dropped().inject.len() == 0,
        Effect::dropped().drop,
{
}

/// A decision that was carried out shows in the result as it was made: the
/// replacement byte by byte, and the injected packets one by one.
pub proof fn results_show_the_decision(r: DesyncResult)
    ensures
        r@.drop == r.drop,
        r@.modified is Some <==> r.modified is Some,
        r.modified is Some ==> r@.modified->0 == r.modified->0@,
        r@.inject.len() == r.inject@.len(),
        forall|i: int|
            0 <= i < r.inject@.len() ==> #[trigger] r@.inject[i] == bytes_of(r.inject@[i]),
{
}

/// A header stands where the first byte says so: its upper half is the version,
/// 4, and its lower half the length in words of four bytes, at least 5, which
/// the packet must hold. The fields are read from their places behind it.
pub proof fn headers_are_read_from_their_bytes(p: Seq<u8>, h: IpHeader)
    ensures
        is_ipv4(p) <==> p.len() >= 20 && 0x45 <= p[0] <= 0x4f && p.len() >= 4 * (p[0] - 0x40),
        is_ipv4(p) ==> payload_of(p).len() == p.len() - 4 * (p[0] - 0x40) && forall|i: int|
            0 <= i < payload_of(p).len() ==> #[trigger] payload_of(p)[i] == p[4 * (p[0] - 0x40) + i],
        is_ipv4(p) && h.reads(p) ==> {
            &&& h.header_len == 4 * (p[0] - 0x40)
            &&& h.identification == 256 * p[4] + p[5]
            &&& h.ttl == p[8]
            &&& h.protocol == p[9]
            &&& h.src@ == seq![p[12], p[13], p[14], p[15]]
            &&& h.dst@ == seq![p[16], p[17], p[18], p[19]]
        },
        identification_of(p) == 256 * p[4] + p[5],
        ttl_of(p) == p[8],
        protocol_of(p) == p[9],
{
    if is_ipv4(p) && h.reads(p) {
        assert(h.src@ =~= seq![p[12], p[13], p[14], p[15]]);
        assert(h.dst@ =~= seq![p[16], p[17], p[18], p[19]]);
    }
}

/// The words of a 20-byte header, its checksum included, added up plainly.
pub open spec fn sum_of_words(p: Seq<u8>) -> int {
    256 * (p[0] + p[2] + p[4] + p[6] + p[8] + p[10] + p[12] + p[14] + p[16] + p[18]) + (p[1] + p[3]
        + p[5] + p[7] + p[9] + p[11] + p[13] + p[15] + p[17] + p[19])
}

/// A header verifies if and only if its words add up to a positive multiple of
/// 0xffff, which is what ones' complement arithmetic takes for minus zero.
pub proof fn verified_words_add_up(p: Seq<u8>)
    requires
        p.len() >= 20,
    ensures
        checksum_verifies(p) <==> sum_of_words(p) > 0 && sum_of_words(p) % 0xffff == 0,
{
    let n: int = header_sum(p) + be16(p, 10);
    assert(n == sum_of_words(p));
    assert(n >= 0);
    minus_zero_is_a_multiple(n);
}

proof fn minus_zero_is_a_multiple(n: int)
    requires
        n >= 0,
    ensures
        ones_complement(n) == 0xffff <==> n > 0 && n % 0xffff == 0,
        n > 0 ==> 0 < ones_complement(n) <= 0xffff,
{
}

/// The words of a header with a recomputed checksum add up to a positive
/// multiple of 0xffff. Where two checksums would do, 0 and 0xffff, it is 0,
/// unless all the rest of the header is zero.
pub proof fn recomputed_words_add_up(p: Seq<u8>, i: int)
    requires
        p.len() >= 20,
        0 <= i < 20,
        i != 10,
        i != 11,
    ensures
        sum_of_words(with_checksum(p)) > 0,
        sum_of_words(with_checksum(p)) % 0xffff == 0,
        p[i] > 0 ==> !(with_checksum(p)[10] == 0xff && with_checksum(p)[11] == 0xff),
        checksum_of(p) == 256 * with_checksum(p)[10] + with_checksum(p)[11],
{
    recomputed_checksum_verifies(p);
    verified_words_add_up(with_checksum(p));
    let n: int = header_sum(p);
    assert(be16(with_checksum(p), 10) == checksum_of(p));
    if p[i] > 0 {
        assert(n > 0) by {
            assert(i == 0 || i == 1 || i == 2 || i == 3 || i == 4 || i == 5 || i == 6 || i == 7 || i
                == 8 || i == 9 || i == 12 || i == 13 || i == 14 || i == 15 || i == 16 || i == 17
                || i == 18 || i == 19);
        }
        minus_zero_is_a_multiple(n);
    }
}

} // verus!
