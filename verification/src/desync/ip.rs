//! Techniques that work on the IP header.

use super::wire;
use super::{copy_of, parse_ip_header, refresh_checksum, share, write_be16, DesyncResult, Effect};
use crate::desync;
use crate::rand;
use crate::rand::{random_range, Xoshiro256};
use bytes::Bytes;
use vstd::prelude::*;

verus! {

// ---------------------------------------------------------------------------
// Fragments
// ---------------------------------------------------------------------------

/// The most payload that one IPv4 packet with a plain header can carry.
pub const MAX_FRAGMENT_PAYLOAD: usize = 65515;

/// The place of a fragment in its datagram, and what the header says of it.
#[verifier::ext_equal]
pub struct Fragment {
    pub src: Seq<u8>,
    pub dst: Seq<u8>,
    pub protocol: u8,
    pub identification: int,
    /// In units of eight bytes; the header holds thirteen bits of it.
    pub offset: int,
    pub more_fragments: bool,
    pub ttl: u8,
    pub payload: Seq<u8>,
}

impl Fragment {
    /// The header without its checksum.
    pub open spec fn header(self) -> Seq<u8> {
        let total = 20 + self.payload.len();
        seq![
            0x45u8,
            0u8,
            (total / 256) as u8,
            (total % 256) as u8,
            (self.identification / 256) as u8,
            (self.identification % 256) as u8,
            ((if self.more_fragments {
                32int
            } else {
                0int
            }) + (self.offset / 256) % 32) as u8,
            (self.offset % 256) as u8,
            self.ttl,
            self.protocol,
            0u8,
            0u8,
        ] + self.src + self.dst
    }

    /// The packet that carries the fragment.
    #[verifier::opaque]
    pub open spec fn packet(self) -> Seq<u8> {
        desync::with_checksum(self.header() + self.payload)
    }

    /// The fragment can be put into a packet.
    pub open spec fn fits(self) -> bool {
        &&& self.src.len() == 4
        &&& self.dst.len() == 4
        &&& 0 <= self.identification < 0x1_0000
        &&& 0 <= self.offset
        &&& self.payload.len() <= MAX_FRAGMENT_PAYLOAD
    }
}

/// Every fragment is a complete IPv4 packet with a checksum that verifies, and
/// a receiver reads from it what was put in.
pub proof fn fragment_reads_back(f: Fragment)
    requires
        f.fits(),
    ensures
        desync::is_ipv4(f.packet()),
        desync::checksum_verifies(f.packet()),
        desync::be16(f.packet(), 2) == f.packet().len(),
        desync::source_of(f.packet()) == f.src,
        desync::destination_of(f.packet()) == f.dst,
        desync::protocol_of(f.packet()) == f.protocol,
        desync::ttl_of(f.packet()) == f.ttl,
        desync::identification_of(f.packet()) == f.identification,
        f.offset < 0x2000 ==> desync::be16(f.packet(), 6) == f.offset + (if f.more_fragments {
            0x2000int
        } else {
            0int
        }),
        desync::payload_of(f.packet()) == f.payload,
{
    reveal(Fragment::packet);
    let raw = f.header() + f.payload;
    desync::recomputed_checksum_verifies(raw);
    let p = f.packet();
    assert(desync::source_of(p) =~= f.src);
    assert(desync::destination_of(p) =~= f.dst);
    assert(desync::payload_of(p) =~= f.payload);
}

/// Builds the packet of one fragment.
fn build_ip_fragment(
    src: [u8; 4],
    dst: [u8; 4],
    protocol: u8,
    identification: u16,
    offset: u16,
    more_fragments: bool,
    ttl: u8,
    payload: &[u8],
) -> (packet: Bytes)
    requires
        payload@.len() <= MAX_FRAGMENT_PAYLOAD,
    ensures
        desync::bytes_of(packet) == (Fragment {
            src: src@,
            dst: dst@,
            protocol,
            identification: identification as int,
            offset: offset as int,
            more_fragments,
            ttl,
            payload: payload@,
        }).packet(),
{
    let ghost f = Fragment {
        src: src@,
        dst: dst@,
        protocol,
        identification: identification as int,
        offset: offset as int,
        more_fragments,
        ttl,
        payload: payload@,
    };
    let total: usize = 20 + payload.len();
    let mut buf: Vec<u8> = vec![0u8; total];
    wire::set_version(&mut buf, 4);
    wire::set_header_length(&mut buf, 5);
    wire::set_total_length(&mut buf, total as u16);
    wire::set_identification(&mut buf, identification);
    let flags: u8 = if more_fragments {
        1
    } else {
        0
    };
    wire::set_flags(&mut buf, flags);
    wire::set_fragment_offset(&mut buf, offset);
    wire::set_ttl(&mut buf, ttl);
    wire::set_next_level_protocol(&mut buf, protocol);
    wire::set_source(&mut buf, src);
    wire::set_destination(&mut buf, dst);
    wire::fill_payload(&mut buf, payload);
    assert(buf@ =~= f.header() + f.payload);
    refresh_checksum(&mut buf);
    proof {
        reveal(Fragment::packet);
    }
    share(buf)
}

/// The packet after `packet` in the same flow would carry this identification;
/// the fragments that are made of a packet carry it.
pub open spec fn next_identification(p: Seq<u8>) -> int {
    (desync::identification_of(p) + 1) % 0x1_0000
}

/// `ttl` lowered by `offset`, but not below zero.
pub open spec fn lowered_ttl(ttl: u8, offset: u8) -> u8 {
    if ttl >= offset {
        (ttl - offset) as u8
    } else {
        0
    }
}

// ---------------------------------------------------------------------------
// Overlapping fragments
// ---------------------------------------------------------------------------

/// The length of the TCP header behind the IP header, or the length of a
/// header without options where the segment is too short to tell.
pub open spec fn tcp_header_len(p: Seq<u8>) -> int {
    let start = desync::header_len(p);
    if p.len() > start + 12 {
        (p[start + 12] / 16) * 4
    } else {
        20
    }
}

/// The decoy fragment: `fake` at the front of the datagram, with a lowered TTL.
pub open spec fn decoy_fragment(p: Seq<u8>, fake: Seq<u8>, fake_ttl_offset: u8) -> Fragment {
    Fragment {
        src: desync::source_of(p),
        dst: desync::destination_of(p),
        protocol: desync::protocol_of(p),
        identification: next_identification(p),
        offset: 0,
        more_fragments: true,
        ttl: lowered_ttl(desync::ttl_of(p), fake_ttl_offset),
        payload: fake,
    }
}

/// The real fragment: the payload of `p`, from the end of the TCP header on in
/// whole units of eight bytes, so that it overlaps the decoy.
pub open spec fn overlapping_fragment(p: Seq<u8>) -> Fragment {
    Fragment {
        src: desync::source_of(p),
        dst: desync::destination_of(p),
        protocol: desync::protocol_of(p),
        identification: next_identification(p),
        offset: tcp_header_len(p) / 8,
        more_fragments: false,
        ttl: desync::ttl_of(p),
        payload: desync::payload_of(p),
    }
}

/// What [`frag_overlap`] does with `p`.
pub open spec fn frag_overlap_effect(p: Seq<u8>, fake: Seq<u8>, fake_ttl_offset: u8) -> Effect {
    if desync::is_ipv4(p) && desync::payload_of(p).len() > 0 {
        Effect::inject(
            seq![
                decoy_fragment(p, fake, fake_ttl_offset).packet(),
                overlapping_fragment(p).packet(),
            ],
        )
    } else {
        Effect::passthrough()
    }
}

/// Sends the payload as a fragment that overlaps a decoy.
///
/// Two fragments are injected under one identification. The first starts at
/// offset 0, announces more fragments and carries `fake_payload`, a ClientHello
/// with a harmless server name. The second is the last one and carries the real
/// payload, at the offset where the TCP header ends. An inspector that believes
/// the first fragment sees the harmless name.
pub fn frag_overlap(packet: &[u8], fake_payload: &[u8], fake_ttl_offset: u8) -> (r: DesyncResult)
    requires
        desync::is_ipv4(packet@) && desync::payload_of(packet@).len() > 0 ==> {
            &&& fake_payload@.len() <= MAX_FRAGMENT_PAYLOAD
            &&& desync::payload_of(packet@).len() <= MAX_FRAGMENT_PAYLOAD
        },
    ensures
        r@ == frag_overlap_effect(packet@, fake_payload@, fake_ttl_offset),
        desync::is_ipv4(packet@) && desync::payload_of(packet@).len() > 0 ==> {
            &&& r.modified is None
            &&& !r.drop
            &&& r.inject@.len() == 2
            &&& desync::payload_of(desync::bytes_of(r.inject@[0])) == fake_payload@
            &&& desync::be16(desync::bytes_of(r.inject@[0]), 6) == 0x2000
            &&& desync::payload_of(desync::bytes_of(r.inject@[1])) == desync::payload_of(packet@)
            &&& desync::be16(desync::bytes_of(r.inject@[1]), 6) < 0x2000
        },
{
    let ip = match parse_ip_header(packet) {
        Some(h) => h,
        None => return DesyncResult::passthrough(),
    };
    if ip.header_len == packet.len() {
        return DesyncResult::passthrough();
    }
    let payload = rest_of(packet, ip.header_len);
    let frag1 = build_ip_fragment(
        ip.src,
        ip.dst,
        ip.protocol,
        ip.identification.wrapping_add(1),
        0,
        true,
        ip.ttl.saturating_sub(fake_ttl_offset),
        fake_payload,
    );
    let tcp_len: usize = if packet.len() > ip.header_len + 12 {
        (packet[ip.header_len + 12] / 16) as usize * 4
    } else {
        20
    };
    let frag2 = build_ip_fragment(
        ip.src,
        ip.dst,
        ip.protocol,
        ip.identification.wrapping_add(1),
        (tcp_len / 8) as u16,
        false,
        ip.ttl,
        payload,
    );
    let mut inject: Vec<Bytes> = Vec::new();
    inject.push(frag1);
    inject.push(frag2);
    proof {
        let sent = inject@.map_values(|b: Bytes| desync::bytes_of(b));
        assert(sent =~= seq![
            decoy_fragment(packet@, fake_payload@, fake_ttl_offset).packet(),
            overlapping_fragment(packet@).packet(),
        ]);
        assert(sent[0] == desync::bytes_of(inject@[0]));
        assert(sent[1] == desync::bytes_of(inject@[1]));
        fragments_overlap(packet@, fake_payload@, fake_ttl_offset);
    }
    DesyncResult::inject_many(inject)
}

/// A receiver takes the two fragments for parts of one datagram: they agree in
/// addresses, protocol and identification, the decoy stands at its front and
/// announces more, and the real fragment ends it. Where the decoy reaches
/// beyond the TCP header, both claim the bytes behind that place.
pub proof fn fragments_overlap(p: Seq<u8>, fake: Seq<u8>, fake_ttl_offset: u8)
    requires
        desync::is_ipv4(p),
        0 < desync::payload_of(p).len() <= MAX_FRAGMENT_PAYLOAD,
        fake.len() <= MAX_FRAGMENT_PAYLOAD,
    ensures
        ({
            let decoy = decoy_fragment(p, fake, fake_ttl_offset).packet();
            let data = overlapping_fragment(p).packet();
            let start = (tcp_header_len(p) / 8) * 8;
            &&& desync::checksum_verifies(decoy)
            &&& desync::checksum_verifies(data)
            &&& desync::source_of(decoy) == desync::source_of(data)
            &&& desync::destination_of(decoy) == desync::destination_of(data)
            &&& desync::protocol_of(decoy) == desync::protocol_of(data)
            &&& desync::identification_of(decoy) == desync::identification_of(data)
            &&& desync::be16(decoy, 6) == 0x2000
            &&& desync::be16(data, 6) * 8 == start
            &&& desync::payload_of(decoy) == fake
            &&& desync::payload_of(data) == desync::payload_of(p)
            &&& desync::ttl_of(decoy) <= desync::ttl_of(data)
            &&& start <= tcp_header_len(p) < start + 8
            &&& tcp_header_len(p) < fake.len() ==> start < fake.len()
        }),
{
    fragment_reads_back(decoy_fragment(p, fake, fake_ttl_offset));
    fragment_reads_back(overlapping_fragment(p));
}

/// What stands in `packet` from `from` on.
fn rest_of(packet: &[u8], from: usize) -> (rest: &[u8])
    requires
        from <= packet@.len(),
    ensures
        rest@ == packet@.skip(from as int),
{
    let (_, rest) = packet.split_at(from);
    assert(rest@ =~= packet@.skip(from as int));
    rest
}

// ---------------------------------------------------------------------------
// Plain fragmentation
// ---------------------------------------------------------------------------

/// Where the fragment that starts at `pos` ends.
pub open spec fn fragment_end(len: int, pos: int, frag_size: int) -> int {
    if frag_size < len - pos {
        pos + frag_size
    } else {
        len
    }
}

/// The fragment of the payload of `p` that starts at `pos`. All fragments but
/// the last have a lowered TTL.
pub open spec fn fragment_at(p: Seq<u8>, frag_size: int, fake_ttl_offset: u8, pos: int) -> Fragment {
    let payload = desync::payload_of(p);
    let end = fragment_end(payload.len() as int, pos, frag_size);
    let last = end == payload.len();
    Fragment {
        src: desync::source_of(p),
        dst: desync::destination_of(p),
        protocol: desync::protocol_of(p),
        identification: next_identification(p),
        offset: (pos / 8) % 0x1_0000,
        more_fragments: !last,
        ttl: if last {
            desync::ttl_of(p)
        } else {
            lowered_ttl(desync::ttl_of(p), fake_ttl_offset)
        },
        payload: payload.subrange(pos, end),
    }
}

/// The fragments of the payload of `p` from `pos` on.
pub open spec fn fragments_from(
    p: Seq<u8>,
    frag_size: int,
    fake_ttl_offset: u8,
    pos: int,
) -> Seq<Fragment>
    decreases desync::payload_of(p).len() - pos,
{
    let len = desync::payload_of(p).len() as int;
    if frag_size <= 0 || pos < 0 || pos >= len {
        Seq::empty()
    } else {
        seq![fragment_at(p, frag_size, fake_ttl_offset, pos)] + fragments_from(
            p,
            frag_size,
            fake_ttl_offset,
            fragment_end(len, pos, frag_size),
        )
    }
}

/// What [`ip_frag_primitives`] does with `p`.
pub open spec fn ip_frag_effect(p: Seq<u8>, frag_size: int, fake_ttl_offset: u8) -> Effect {
    if desync::is_ipv4(p) && desync::payload_of(p).len() > frag_size {
        Effect::inject(
            fragments_from(p, frag_size, fake_ttl_offset, 0).map_values(|f: Fragment| f.packet()),
        )
    } else {
        Effect::passthrough()
    }
}

/// Cuts the payload into IP fragments of `frag_size` bytes.
///
/// A packet whose payload fits into one fragment is left alone.
pub fn ip_frag_primitives(packet: &[u8], frag_size: usize, fake_ttl_offset: u8) -> (r: DesyncResult)
    requires
        desync::is_ipv4(packet@) && desync::payload_of(packet@).len() > frag_size ==> 0 < frag_size
            <= MAX_FRAGMENT_PAYLOAD,
    ensures
        r@ == ip_frag_effect(packet@, frag_size as int, fake_ttl_offset),
{
    let ip = match parse_ip_header(packet) {
        Some(h) => h,
        None => return DesyncResult::passthrough(),
    };
    let payload = rest_of(packet, ip.header_len);
    if payload.len() <= frag_size {
        return DesyncResult::passthrough();
    }
    let ghost p = packet@;
    let ghost size = frag_size as int;
    let len: usize = payload.len();
    let mut inject: Vec<Bytes> = Vec::new();
    let mut pos: usize = 0;
    let frag_id: u16 = ip.identification.wrapping_add(1);
    let ghost mut made: Seq<Fragment> = Seq::empty();
    while pos < len
        invariant
            p == packet@,
            desync::is_ipv4(p),
            ip.reads(p),
            payload@ == desync::payload_of(p),
            len == payload@.len(),
            size == frag_size,
            0 < frag_size <= MAX_FRAGMENT_PAYLOAD,
            frag_id == next_identification(p),
            pos <= len,
            inject@.map_values(|b: Bytes| desync::bytes_of(b)) == made.map_values(
                |f: Fragment| f.packet(),
            ),
            made + fragments_from(p, size, fake_ttl_offset, pos as int) == fragments_from(
                p,
                size,
                fake_ttl_offset,
                0,
            ),
        decreases len - pos,
    {
        let end: usize = if frag_size < len - pos {
            pos + frag_size
        } else {
            len
        };
        let (front, _) = payload.split_at(end);
        let piece = rest_of(front, pos);
        let is_last = end == len;
        let ttl: u8 = if is_last {
            ip.ttl
        } else {
            ip.ttl.saturating_sub(fake_ttl_offset)
        };
        let unit: u64 = (pos / 8) as u64 % 0x1_0000;
        let frag = build_ip_fragment(
            ip.src,
            ip.dst,
            ip.protocol,
            frag_id,
            unit as u16,
            !is_last,
            ttl,
            piece,
        );
        proof {
            let f = fragment_at(p, size, fake_ttl_offset, pos as int);
            assert(piece@ =~= f.payload);
            assert(desync::bytes_of(frag) == f.packet());
            let rest = fragments_from(p, size, fake_ttl_offset, end as int);
            assert(fragments_from(p, size, fake_ttl_offset, pos as int) == seq![f] + rest);
            assert(made + (seq![f] + rest) =~= made.push(f) + rest);
            assert(inject@.push(frag).map_values(|b: Bytes| desync::bytes_of(b))
                =~= inject@.map_values(|b: Bytes| desync::bytes_of(b)).push(f.packet()));
            assert(made.push(f).map_values(|f: Fragment| f.packet()) =~= made.map_values(
                |f: Fragment| f.packet(),
            ).push(f.packet()));
            made = made.push(f);
        }
        inject.push(frag);
        pos = end;
    }
    assert(made + fragments_from(p, size, fake_ttl_offset, pos as int) =~= made);
    DesyncResult::inject_many(inject)
}

/// The payloads of `fragments`, one behind the other.
pub open spec fn joined(fragments: Seq<Fragment>) -> Seq<u8>
    decreases fragments.len(),
{
    if fragments.len() == 0 {
        Seq::empty()
    } else {
        fragments[0].payload + joined(fragments.drop_first())
    }
}

/// Cutting loses nothing: the fragments, in the order in which they are sent,
/// carry the payload of the packet, all under one identification; only the last
/// one says that no more follow, and only it keeps the TTL.
pub proof fn fragments_carry_the_payload(p: Seq<u8>, frag_size: int, fake_ttl_offset: u8)
    requires
        desync::is_ipv4(p),
        0 < frag_size,
        desync::payload_of(p).len() > 0,
    ensures
        joined(fragments_from(p, frag_size, fake_ttl_offset, 0)) == desync::payload_of(p),
        fragments_from(p, frag_size, fake_ttl_offset, 0).len() > 0,
        forall|i: int|
            #![trigger fragments_from(p, frag_size, fake_ttl_offset, 0)[i]]
            0 <= i < fragments_from(p, frag_size, fake_ttl_offset, 0).len() ==> {
                let all = fragments_from(p, frag_size, fake_ttl_offset, 0);
                let f = all[i];
                &&& f == fragment_at(p, frag_size, fake_ttl_offset, i * frag_size)
                &&& 0 < f.payload.len() <= frag_size
                &&& f.more_fragments == (i < all.len() - 1)
            },
{
    fragments_tail(p, frag_size, fake_ttl_offset, 0);
    assert(desync::payload_of(p).skip(0) =~= desync::payload_of(p));
}

proof fn fragments_tail(p: Seq<u8>, frag_size: int, fake_ttl_offset: u8, k: int)
    requires
        desync::is_ipv4(p),
        0 < frag_size,
        0 <= k,
        k * frag_size < desync::payload_of(p).len(),
    ensures
        joined(fragments_from(p, frag_size, fake_ttl_offset, k * frag_size)) == desync::payload_of(
            p,
        ).skip(k * frag_size),
        fragments_from(p, frag_size, fake_ttl_offset, k * frag_size).len() > 0,
        forall|i: int|
            #![trigger fragments_from(p, frag_size, fake_ttl_offset, k * frag_size)[i]]
            0 <= i < fragments_from(p, frag_size, fake_ttl_offset, k * frag_size).len() ==> {
                let all = fragments_from(p, frag_size, fake_ttl_offset, k * frag_size);
                let f = all[i];
                &&& f == fragment_at(p, frag_size, fake_ttl_offset, (k + i) * frag_size)
                &&& 0 < f.payload.len() <= frag_size
                &&& f.more_fragments == (i < all.len() - 1)
            },
    decreases desync::payload_of(p).len() - k * frag_size,
{
    let payload = desync::payload_of(p);
    let len = payload.len() as int;
    let pos = k * frag_size;
    assert(pos >= 0) by (nonlinear_arith)
        requires
            pos == k * frag_size,
            0 <= k,
            0 < frag_size,
    ;
    let end = fragment_end(len, pos, frag_size);
    let f = fragment_at(p, frag_size, fake_ttl_offset, pos);
    let rest = fragments_from(p, frag_size, fake_ttl_offset, end);
    let all = fragments_from(p, frag_size, fake_ttl_offset, pos);
    assert(all == seq![f] + rest);
    assert(all.drop_first() =~= rest);
    assert(all[0] == f);
    assert((k + 1) * frag_size == pos + frag_size) by (nonlinear_arith)
        requires
            pos == k * frag_size,
    ;
    if end < len {
        fragments_tail(p, frag_size, fake_ttl_offset, k + 1);
        assert(rest == fragments_from(p, frag_size, fake_ttl_offset, (k + 1) * frag_size));
        assert(f.payload + payload.skip(end) =~= payload.skip(pos));
        assert forall|i: int|
            #![trigger all[i]]
            0 <= i < all.len() implies {
            let g = all[i];
            &&& g == fragment_at(p, frag_size, fake_ttl_offset, (k + i) * frag_size)
            &&& 0 < g.payload.len() <= frag_size
            &&& g.more_fragments == (i < all.len() - 1)
        } by {
            if i > 0 {
                assert(all[i] == rest[i - 1]);
                assert(k + 1 + (i - 1) == k + i);
            }
        }
    } else {
        assert(rest =~= Seq::empty());
        assert(f.payload + joined(rest) =~= payload.skip(pos));
    }
}

/// Where the fragment size is a multiple of eight and the payload fits into an
/// IP datagram, each fragment says exactly where it belongs.
pub proof fn aligned_fragments_know_their_place(
    p: Seq<u8>,
    frag_size: int,
    fake_ttl_offset: u8,
    i: int,
)
    requires
        desync::is_ipv4(p),
        0 < frag_size,
        frag_size % 8 == 0,
        desync::payload_of(p).len() <= 0x1_0000,
        0 <= i,
        i * frag_size < desync::payload_of(p).len(),
    ensures
        fragment_at(p, frag_size, fake_ttl_offset, i * frag_size).offset * 8 == i * frag_size,
        fragment_at(p, frag_size, fake_ttl_offset, i * frag_size).offset < 0x2000,
{
    let pos = i * frag_size;
    let unit = frag_size / 8;
    assert(pos == 8 * (i * unit)) by (nonlinear_arith)
        requires
            pos == i * frag_size,
            frag_size == 8 * unit,
    ;
    assert(pos >= 0) by (nonlinear_arith)
        requires
            pos == i * frag_size,
            0 <= i,
            0 < frag_size,
    ;
}

// ---------------------------------------------------------------------------
// Wrong checksums
// ---------------------------------------------------------------------------

/// `p` with `delta` added to the word at `at`, modulo 2^16.
pub open spec fn bumped(p: Seq<u8>, at: int, delta: int) -> Seq<u8> {
    desync::put_be16(p, at, (desync::be16(p, at) + delta) % 0x1_0000)
}

/// Where the checksum of a TCP segment stands in `p`.
pub open spec fn tcp_checksum_at(p: Seq<u8>) -> int {
    desync::header_len(p) + 16
}

/// The packet with both checksums spoiled, given one draw for each. A packet
/// that ends before the TCP checksum keeps what it has of it.
pub open spec fn spoiled(p: Seq<u8>, draw1: u64, draw2: u64) -> Seq<u8> {
    let ip_only = bumped(p, 10, rand::scaled_between(draw1, 1, 65535));
    if tcp_checksum_at(p) + 2 <= p.len() {
        bumped(ip_only, tcp_checksum_at(p), rand::scaled_between(draw2, 1, 65535))
    } else {
        ip_only
    }
}

/// What [`bad_checksum`] does with `p` when the generator draws from `s`, and
/// where it leaves the generator.
pub open spec fn bad_checksum_outcome(p: Seq<u8>, s: Xoshiro256) -> (Effect, Xoshiro256) {
    (
        Effect::modified(spoiled(p, s.output(), s.next().output())),
        if tcp_checksum_at(p) + 2 <= p.len() {
            s.next().next()
        } else {
            s.next()
        },
    )
}

/// Spoils the IP checksum and the TCP checksum by random amounts.
pub fn bad_checksum(rng: &mut Xoshiro256, packet: &[u8]) -> (r: DesyncResult)
    ensures
        !desync::is_ipv4(packet@) ==> r@ == Effect::passthrough() && *final(rng) == *old(rng),
        desync::is_ipv4(packet@) ==> exists|s: Xoshiro256| #[trigger]
            rand::draws_from(*old(rng), s) && (r@, *final(rng)) == bad_checksum_outcome(packet@, s),
{
    let ip = match parse_ip_header(packet) {
        Some(h) => h,
        None => return DesyncResult::passthrough(),
    };
    rng.seed_if_needed();
    let ghost s = *rng;
    let mut modified = copy_of(packet);
    let delta: u16 = random_range(rng, 1, 65535) as u16;
    bump(&mut modified, 10, delta);
    let at: usize = ip.header_len + 16;
    if at + 2 <= modified.len() {
        let delta2: u16 = random_range(rng, 1, 65535) as u16;
        bump(&mut modified, at, delta2);
    }
    assert(rand::draws_from(*old(rng), s));
    assert(modified@ == spoiled(packet@, s.output(), s.next().output()));
    DesyncResult::modified_only(modified)
}

/// Adds `delta` to the big-endian word at `at`.
fn bump(p: &mut Vec<u8>, at: usize, delta: u16)
    requires
        at + 1 < old(p).len(),
    ensures
        final(p)@ == bumped(old(p)@, at as int, delta as int),
{
    let word: u16 = p[at] as u16 * 256 + p[at + 1] as u16;
    let sum: u16 = word.wrapping_add(delta);
    assert(sum == (desync::be16(p@, at as int) + delta) % 0x1_0000);
    write_be16(p, at, sum);
}

/// Spoiling changes both checksums, and nothing else.
pub proof fn spoiling_changes_the_checksums(p: Seq<u8>, draw1: u64, draw2: u64)
    requires
        desync::is_ipv4(p),
    ensures
        spoiled(p, draw1, draw2).len() == p.len(),
        desync::be16(spoiled(p, draw1, draw2), 10) != desync::be16(p, 10),
        tcp_checksum_at(p) + 2 <= p.len() ==> desync::be16(
            spoiled(p, draw1, draw2),
            tcp_checksum_at(p),
        ) != desync::be16(p, tcp_checksum_at(p)),
        forall|i: int|
            0 <= i < p.len() && i != 10 && i != 11 && i != tcp_checksum_at(p) && i
                != tcp_checksum_at(p) + 1 ==> #[trigger] spoiled(p, draw1, draw2)[i] == p[i],
{
    rand::scaled_is_below(draw1, 65535);
    rand::scaled_is_below(draw2, 65535);
}

/// A header that verified no longer verifies once it is spoiled. The one
/// exception are the two ways in which ones' complement arithmetic writes zero.
pub proof fn spoiled_header_fails(p: Seq<u8>, draw1: u64, draw2: u64)
    requires
        desync::is_ipv4(p),
        desync::checksum_verifies(p),
        !(desync::be16(p, 10) == 0 && desync::be16(spoiled(p, draw1, draw2), 10) == 0xffff),
        !(desync::be16(p, 10) == 0xffff && desync::be16(spoiled(p, draw1, draw2), 10) == 0),
    ensures
        !desync::checksum_verifies(spoiled(p, draw1, draw2)),
{
    spoiling_changes_the_checksums(p, draw1, draw2);
    let q = spoiled(p, draw1, draw2);
    assert(desync::header_sum(q) == desync::header_sum(p));
    if desync::checksum_verifies(q) {
        one_checksum_fits(desync::header_sum(p), desync::be16(p, 10), desync::be16(q, 10));
    }
}

/// Two checksum words that both make a sum verify are equal, or are the two
/// zeros of ones' complement arithmetic.
proof fn one_checksum_fits(n: int, a: int, b: int)
    requires
        0 <= n,
        0 <= a <= 0xffff,
        0 <= b <= 0xffff,
        desync::ones_complement(n + a) == 0xffff,
        desync::ones_complement(n + b) == 0xffff,
    ensures
        a == b || (a == 0 && b == 0xffff) || (a == 0xffff && b == 0),
{
}

// ---------------------------------------------------------------------------
// Time to live
// ---------------------------------------------------------------------------

/// The packet with another TTL and the checksum that belongs to it.
pub open spec fn with_ttl(p: Seq<u8>, ttl: u8) -> Seq<u8> {
    desync::with_checksum(p.update(8, ttl))
}

/// What [`ttl_manipulation`] does with `p`.
pub open spec fn ttl_effect(p: Seq<u8>, ttl: u8) -> Effect {
    if desync::is_ipv4(p) {
        Effect::modified(with_ttl(p, ttl))
    } else {
        Effect::passthrough()
    }
}

/// Sets the TTL and recomputes the checksum.
pub fn ttl_manipulation(packet: &[u8], new_ttl: u8) -> (r: DesyncResult)
    ensures
        r@ == ttl_effect(packet@, new_ttl),
{
    if parse_ip_header(packet).is_none() {
        return DesyncResult::passthrough();
    }
    DesyncResult::modified_only(replace_ttl(packet, new_ttl))
}

fn replace_ttl(packet: &[u8], ttl: u8) -> (modified: Vec<u8>)
    requires
        packet@.len() >= 20,
    ensures
        modified@ == with_ttl(packet@, ttl),
{
    let mut modified = copy_of(packet);
    modified.set(8, ttl);
    refresh_checksum(&mut modified);
    modified
}

/// The TTL that a draw makes of `base`: up to three hops more or less, kept
/// between 1 and 255.
pub open spec fn jittered(base: u8, draw: u64) -> u8 {
    let ttl = base + rand::scaled_between(draw, 0, 6) - 3;
    (if ttl < 1 {
        1
    } else if ttl > 255 {
        255
    } else {
        ttl
    }) as u8
}

/// What [`ttl_jitter`] does with the IPv4 packet `p` when it draws `draw`.
pub open spec fn jitter_effect(p: Seq<u8>, base: Option<u8>, draw: u64) -> Effect {
    let ttl = jittered(
        match base {
            Some(b) => b,
            None => desync::ttl_of(p),
        },
        draw,
    );
    if ttl == desync::ttl_of(p) {
        Effect::passthrough()
    } else {
        Effect::modified(with_ttl(p, ttl))
    }
}

/// Moves the TTL by a random number of hops, from three less to three more than
/// `base_ttl`, or than the packet's own TTL.
pub fn ttl_jitter(rng: &mut Xoshiro256, packet: &[u8], base_ttl: Option<u8>) -> (r: DesyncResult)
    ensures
        !desync::is_ipv4(packet@) ==> r@ == Effect::passthrough() && *final(rng) == *old(rng),
        desync::is_ipv4(packet@) ==> exists|s: Xoshiro256| #[trigger]
            rand::draws_from(*old(rng), s) && r@ == jitter_effect(packet@, base_ttl, s.output())
                && *final(rng) == s.next(),
{
    let ip = match parse_ip_header(packet) {
        Some(h) => h,
        None => return DesyncResult::passthrough(),
    };
    let current: u8 = match base_ttl {
        Some(b) => b,
        None => ip.ttl,
    };
    let moved: i16 = current as i16 + random_range(rng, 0, 6) as i16 - 3;
    let new_ttl: u8 = if moved < 1 {
        1
    } else if moved > 255 {
        255
    } else {
        moved as u8
    };
    if new_ttl == ip.ttl {
        return DesyncResult::passthrough();
    }
    DesyncResult::modified_only(replace_ttl(packet, new_ttl))
}

/// A jittered TTL is never zero and at most three hops from where it was, or
/// from 1 if it was zero.
pub proof fn jitter_is_small(base: u8, draw: u64)
    ensures
        1 <= jittered(base, draw),
        base - 3 <= jittered(base, draw) <= base + 3,
{
    rand::scaled_is_below(draw, 7);
}

/// A packet that got another TTL has it, has a checksum that verifies, and is
/// otherwise the same.
pub proof fn new_ttl_takes_effect(p: Seq<u8>, ttl: u8)
    requires
        desync::is_ipv4(p),
    ensures
        desync::is_ipv4(with_ttl(p, ttl)),
        desync::ttl_of(with_ttl(p, ttl)) == ttl,
        desync::checksum_verifies(with_ttl(p, ttl)),
        desync::payload_of(with_ttl(p, ttl)) == desync::payload_of(p),
        forall|i: int|
            0 <= i < p.len() && i != 8 && i != 10 && i != 11 ==> #[trigger] with_ttl(p, ttl)[i]
                == p[i],
{
    desync::recomputed_checksum_verifies(p.update(8, ttl));
    assert(desync::payload_of(with_ttl(p, ttl)) =~= desync::payload_of(p));
}

/// Only the last TTL counts.
pub proof fn last_ttl_wins(p: Seq<u8>, first: u8, second: u8)
    requires
        desync::is_ipv4(p),
    ensures
        with_ttl(with_ttl(p, first), second) == with_ttl(p, second),
{
    let q = with_ttl(p, first).update(8, second);
    let r = p.update(8, second);
    assert(desync::header_sum(q) == desync::header_sum(r));
    assert(with_ttl(with_ttl(p, first), second) =~= with_ttl(p, second));
}

// ---------------------------------------------------------------------------
// DSCP
// ---------------------------------------------------------------------------

/// The DSCP of the packet.
pub open spec fn dscp_of(p: Seq<u8>) -> u8 {
    p[1] / 4
}

/// The ECN bits of the packet.
pub open spec fn ecn_of(p: Seq<u8>) -> u8 {
    p[1] % 4
}

/// The packet with another DSCP and the checksum that belongs to it.
pub open spec fn with_dscp(p: Seq<u8>, dscp: u8) -> Seq<u8> {
    desync::with_checksum(p.update(1, (dscp * 4 + ecn_of(p)) as u8))
}

/// What [`dscp_random`] does with `p`.
pub open spec fn dscp_effect(p: Seq<u8>, value: u8) -> Effect {
    if desync::is_ipv4(p) && dscp_of(p) != value % 64 {
        Effect::modified(with_dscp(p, value % 64))
    } else {
        Effect::passthrough()
    }
}

/// Marks the packet with the lower six bits of `dscp_value`. A connection
/// should use one value for all its packets.
pub fn dscp_random(packet: &[u8], dscp_value: u8) -> (r: DesyncResult)
    ensures
        r@ == dscp_effect(packet@, dscp_value),
{
    if parse_ip_header(packet).is_none() {
        return DesyncResult::passthrough();
    }
    let new_dscp: u8 = dscp_value % 64;
    if packet[1] / 4 == new_dscp {
        return DesyncResult::passthrough();
    }
    let mut modified = copy_of(packet);
    let marked: u8 = new_dscp * 4 + packet[1] % 4;
    modified.set(1, marked);
    refresh_checksum(&mut modified);
    DesyncResult::modified_only(modified)
}

/// A packet that was marked has the mark, keeps its ECN bits, has a checksum
/// that verifies, and is otherwise the same.
pub proof fn mark_takes_effect(p: Seq<u8>, value: u8)
    requires
        desync::is_ipv4(p),
    ensures
        desync::is_ipv4(with_dscp(p, value % 64)),
        dscp_of(with_dscp(p, value % 64)) == value % 64,
        ecn_of(with_dscp(p, value % 64)) == ecn_of(p),
        desync::checksum_verifies(with_dscp(p, value % 64)),
        dscp_effect(with_dscp(p, value % 64), value) == Effect::passthrough(),
        forall|i: int|
            0 <= i < p.len() && i != 1 && i != 10 && i != 11 ==> #[trigger] with_dscp(
                p,
                value % 64,
            )[i] == p[i],
{
    desync::recomputed_checksum_verifies(p.update(1, ((value % 64) * 4 + ecn_of(p)) as u8));
}

// ---------------------------------------------------------------------------
// Injected resets
// ---------------------------------------------------------------------------

/// `p` is a TCP segment with the RST flag.
pub open spec fn is_tcp_reset(p: Seq<u8>) -> bool {
    &&& desync::is_ipv4(p)
    &&& desync::protocol_of(p) == 6
    &&& desync::payload_of(p).len() >= 20
    &&& (desync::payload_of(p)[13] / 4) % 2 == 1
}

/// Drops TCP resets with an identification of at most 15, which is what
/// injected resets carry. Every other packet goes on as it is.
pub fn rst_drop_ip_id(packet: &[u8]) -> (r: DesyncResult)
    ensures
        r@ == (if is_tcp_reset(packet@) && desync::identification_of(packet@) <= 0x000F {
            Effect::dropped()
        } else {
            Effect::passthrough()
        }),
{
    let ip = match parse_ip_header(packet) {
        Some(h) => h,
        None => return DesyncResult::passthrough(),
    };
    if ip.identification > 0x000F || ip.protocol != 6 {
        return DesyncResult::passthrough();
    }
    match wire::tcp_flags(rest_of(packet, ip.header_len)) {
        Some(flags) => {
            assert((flags & 0x04 != 0) == ((flags / 4) % 2 == 1)) by (bit_vector);
            if flags & 0x04 != 0 {
                DesyncResult::drop_packet()
            } else {
                DesyncResult::passthrough()
            }
        },
        None => DesyncResult::passthrough(),
    }
}

/// Swapping the addresses is not done: it would send the packet back to its
/// sender. Every packet goes on as it is.
pub fn mutual_spoof(_packet: &[u8]) -> (r: DesyncResult)
    ensures
        r@ == Effect::passthrough(),
{
    DesyncResult::passthrough()
}

// ---------------------------------------------------------------------------
// Laws on what is sent
// ---------------------------------------------------------------------------

/// The bytes of the packet that carries a fragment.
proof fn fragment_bytes(f: Fragment)
    requires
        f.src.len() == 4,
        f.dst.len() == 4,
        0 <= f.offset,
        0 <= f.identification < 0x1_0000,
    ensures
        f.packet().len() == 20 + f.payload.len(),
        f.packet().skip(20) == f.payload,
        f.packet()[0] == 0x45,
        f.packet()[1] == 0,
        256 * f.packet()[4] + f.packet()[5] == f.identification,
        f.packet()[6] == (if f.more_fragments {
            32int
        } else {
            0
        }) + (f.offset / 256) % 32,
        f.packet()[7] == f.offset % 256,
        f.packet()[8] == f.ttl,
        f.packet()[9] == f.protocol,
        f.packet().subrange(12, 16) == f.src,
        f.packet().subrange(16, 20) == f.dst,
        f.payload.len() <= MAX_FRAGMENT_PAYLOAD ==> 256 * f.packet()[2] + f.packet()[3] == 20
            + f.payload.len(),
        desync::checksum_verifies(f.packet()),
{
    reveal(Fragment::packet);
    let raw = f.header() + f.payload;
    desync::recomputed_checksum_verifies(raw);
    let p = f.packet();
    assert(p.skip(20) =~= f.payload);
    assert(p.subrange(12, 16) =~= f.src);
    assert(p.subrange(16, 20) =~= f.dst);
}

/// `sent` is a packet with a plain header of its own, which verifies, for the
/// protocol and between the addresses of `p`, and with the identification that
/// follows that of `p`.
pub open spec fn belongs_to(sent: Seq<u8>, p: Seq<u8>) -> bool {
    &&& sent.len() >= 20
    &&& sent[0] == 0x45
    &&& sent[9] == p[9]
    &&& sent.subrange(12, 20) == p.subrange(12, 20)
    &&& 256 * sent[4] + sent[5] == (256 * p[4] + p[5] + 1) % 0x1_0000
    &&& desync::sum_of_words(sent) % 0xffff == 0
}

proof fn fragments_belong_to_their_packet(f: Fragment, p: Seq<u8>)
    requires
        desync::is_ipv4(p),
        f.src == desync::source_of(p),
        f.dst == desync::destination_of(p),
        f.protocol == desync::protocol_of(p),
        f.identification == next_identification(p),
        0 <= f.offset,
    ensures
        belongs_to(f.packet(), p),
{
    fragment_bytes(f);
    desync::verified_words_add_up(f.packet());
    let sent = f.packet();
    assert forall|i: int| 0 <= i < 8 implies #[trigger] sent.subrange(12, 20)[i] == p.subrange(
        12,
        20,
    )[i] by {
        if i < 4 {
            assert(sent.subrange(12, 16)[i] == p.subrange(12, 16)[i]);
        } else {
            assert(sent.subrange(16, 20)[i - 4] == p.subrange(16, 20)[i - 4]);
        }
    }
    assert(sent.subrange(12, 20) =~= p.subrange(12, 20));
}

/// A packet with a complete header and a payload makes [`frag_overlap`] send two
/// packets beside it, and changes and drops nothing, whatever the decoy is and
/// however long. The first carries the decoy and nothing else, at offset 0, and
/// announces more; its TTL is lowered. The second carries the payload and
/// nothing else as the last fragment, from where the TCP header ends, with the
/// TTL of the packet. Any other packet is left alone.
pub proof fn overlap_sends_decoy_and_payload(p: Seq<u8>, fake: Seq<u8>, fake_ttl_offset: u8)
    ensures
        ({
            let e = frag_overlap_effect(p, fake, fake_ttl_offset);
            let start: int = 4 * (p[0] - 0x40);
            let valid = p.len() >= 20 && 0x45 <= p[0] <= 0x4f && start < p.len();
            let tcp_words: int = if p.len() > start + 12 {
                p[start + 12] as int / 16
            } else {
                5
            };
            &&& e.modified is None
            &&& !e.drop
            &&& e.inject.len() == if valid {
                2int
            } else {
                0
            }
            &&& valid ==> {
                let first = e.inject[0];
                let second = e.inject[1];
                &&& belongs_to(first, p)
                &&& first.skip(20) == fake
                &&& first[6] == 0x20
                &&& first[7] == 0
                &&& first[8] == if p[8] >= fake_ttl_offset {
                    p[8] - fake_ttl_offset
                } else {
                    0
                }
                &&& belongs_to(second, p)
                &&& second.skip(20) == p.skip(start)
                &&& second[6] == 0
                &&& second[7] == tcp_words / 2
                &&& second[8] == p[8]
            }
        }),
{
    let start: int = 4 * (p[0] - 0x40);
    let valid = p.len() >= 20 && 0x45 <= p[0] <= 0x4f && start < p.len();
    assert(valid <==> desync::is_ipv4(p) && desync::payload_of(p).len() > 0);
    if valid {
        let decoy = decoy_fragment(p, fake, fake_ttl_offset);
        let data = overlapping_fragment(p);
        fragment_bytes(decoy);
        fragment_bytes(data);
        fragments_belong_to_their_packet(decoy, p);
        fragments_belong_to_their_packet(data, p);
    }
}

/// A payload that is longer than `frag_size` makes [`ip_frag_primitives`] send
/// as many packets beside it as hold it with `frag_size` bytes each, and no
/// more, and changes and drops nothing. Any other packet is left alone.
pub proof fn long_payloads_are_cut(p: Seq<u8>, frag_size: int, fake_ttl_offset: u8)
    requires
        0 < frag_size,
    ensures
        ({
            let e = ip_frag_effect(p, frag_size, fake_ttl_offset);
            let len: int = p.len() - 4 * (p[0] - 0x40);
            let n: int = e.inject.len() as int;
            let valid = p.len() >= 20 && 0x45 <= p[0] <= 0x4f && len > frag_size;
            &&& e.modified is None
            &&& !e.drop
            &&& !valid ==> n == 0
            &&& valid ==> (n - 1) * frag_size < len <= n * frag_size
        }),
{
    let e = ip_frag_effect(p, frag_size, fake_ttl_offset);
    let len: int = p.len() - 4 * (p[0] - 0x40);
    let n: int = e.inject.len() as int;
    let valid = p.len() >= 20 && 0x45 <= p[0] <= 0x4f && len > frag_size;
    assert(valid <==> desync::is_ipv4(p) && desync::payload_of(p).len() > frag_size);
    if valid {
        fragments_carry_the_payload(p, frag_size, fake_ttl_offset);
        assert(n == fragments_from(p, frag_size, fake_ttl_offset, 0).len());
        piece_starts_inside(p, frag_size, fake_ttl_offset, n - 1);
        assert(n * frag_size == (n - 1) * frag_size + frag_size) by (nonlinear_arith);
    }
}

/// The packets of a payload that was cut hold it in order, `frag_size` bytes
/// each and the last one the rest. Each says at which unit of eight bytes it
/// starts, as far as thirteen bits tell; all but the last announce more, and
/// have a lowered TTL.
pub proof fn pieces_are_sent_in_order(p: Seq<u8>, frag_size: int, fake_ttl_offset: u8, i: int)
    requires
        0 < frag_size,
        0 <= i < ip_frag_effect(p, frag_size, fake_ttl_offset).inject.len(),
    ensures
        ({
            let n: int = ip_frag_effect(p, frag_size, fake_ttl_offset).inject.len() as int;
            let sent = ip_frag_effect(p, frag_size, fake_ttl_offset).inject[i];
            let from: int = 4 * (p[0] - 0x40) + i * frag_size;
            &&& belongs_to(sent, p)
            &&& i < n - 1 ==> sent.skip(20) == p.subrange(from, from + frag_size)
            &&& i == n - 1 ==> sent.skip(20) == p.skip(from)
            &&& sent[6] >= 0x20 <==> i < n - 1
            &&& 256 * (sent[6] as int % 32) + sent[7] == ((i * frag_size) / 8) % 0x2000
            &&& i == n - 1 ==> sent[8] == p[8]
            &&& i < n - 1 ==> sent[8] == if p[8] >= fake_ttl_offset {
                p[8] - fake_ttl_offset
            } else {
                0
            }
        }),
{
    let all = fragments_from(p, frag_size, fake_ttl_offset, 0);
    let start: int = 4 * (p[0] - 0x40);
    let pos: int = i * frag_size;
    fragments_carry_the_payload(p, frag_size, fake_ttl_offset);
    let n: int = all.len() as int;
    assert(ip_frag_effect(p, frag_size, fake_ttl_offset).inject[i] == all[i].packet());
    piece_starts_inside(p, frag_size, fake_ttl_offset, i);
    assert(all[i] == fragment_at(p, frag_size, fake_ttl_offset, pos));
    piece_bytes(p, frag_size, fake_ttl_offset, pos);
}

proof fn piece_bytes(p: Seq<u8>, frag_size: int, fake_ttl_offset: u8, pos: int)
    requires
        desync::is_ipv4(p),
        0 < frag_size,
        0 <= pos < desync::payload_of(p).len(),
    ensures
        ({
            let sent = fragment_at(p, frag_size, fake_ttl_offset, pos).packet();
            let from: int = 4 * (p[0] - 0x40) + pos;
            let last = !(frag_size < p.len() - from);
            &&& belongs_to(sent, p)
            &&& !last ==> sent.skip(20) == p.subrange(from, from + frag_size)
            &&& last ==> sent.skip(20) == p.skip(from)
            &&& sent[6] >= 0x20 <==> !last
            &&& 256 * (sent[6] as int % 32) + sent[7] == (pos / 8) % 0x2000
            &&& last ==> sent[8] == p[8]
            &&& !last ==> sent[8] == lowered_ttl(p[8], fake_ttl_offset)
        }),
{
    let f = fragment_at(p, frag_size, fake_ttl_offset, pos);
    let from: int = 4 * (p[0] - 0x40) + pos;
    fragment_bytes(f);
    fragments_belong_to_their_packet(f, p);
    if frag_size < p.len() - from {
        assert(f.payload =~= p.subrange(from, from + frag_size));
    } else {
        assert(f.payload =~= p.skip(from));
    }
    unit_in_thirteen_bits(pos);
}

/// The piece with number `i` starts inside the payload, and only the last one
/// reaches its end.
proof fn piece_starts_inside(p: Seq<u8>, frag_size: int, fake_ttl_offset: u8, i: int)
    requires
        desync::is_ipv4(p),
        0 < frag_size < desync::payload_of(p).len(),
        0 <= i < fragments_from(p, frag_size, fake_ttl_offset, 0).len(),
    ensures
        ({
            let n: int = fragments_from(p, frag_size, fake_ttl_offset, 0).len() as int;
            let len: int = desync::payload_of(p).len() as int;
            &&& 0 <= i * frag_size < len
            &&& i < n - 1 <==> frag_size < len - i * frag_size
        }),
    decreases i,
{
    fragments_carry_the_payload(p, frag_size, fake_ttl_offset);
    let all = fragments_from(p, frag_size, fake_ttl_offset, 0);
    let len: int = desync::payload_of(p).len() as int;
    assert(0 <= i * frag_size) by (nonlinear_arith)
        requires
            0 <= i,
            0 < frag_size,
    ;
    if i > 0 {
        piece_starts_inside(p, frag_size, fake_ttl_offset, i - 1);
        assert(i * frag_size == (i - 1) * frag_size + frag_size) by (nonlinear_arith);
    } else {
        assert(0 * frag_size == 0) by (nonlinear_arith);
    }
    let f = all[i];
    assert(f == fragment_at(p, frag_size, fake_ttl_offset, i * frag_size));
}

proof fn unit_in_thirteen_bits(pos: int)
    requires
        0 <= pos,
    ensures
        ({
            let offset = (pos / 8) % 0x1_0000;
            256 * ((offset / 256) % 32) + offset % 256 == (pos / 8) % 0x2000
        }),
{
}

/// Spoiling adds to the IP checksum a number from 1 to 65535, and to the TCP
/// checksum another, each the integer part of a draw scaled to that range; the
/// packet is replaced, and nothing else is sent. Two draws are spent on a packet
/// that reaches its TCP checksum, one on any other.
pub proof fn spoiling_adds_what_was_drawn(p: Seq<u8>, s: Xoshiro256)
    requires
        desync::is_ipv4(p),
    ensures
        ({
            let (e, after) = bad_checksum_outcome(p, s);
            let at: int = 4 * (p[0] - 0x40) + 16;
            let d1: int = 1 + (s.output() * 65535) / 0x1_0000_0000_0000_0000;
            let d2: int = 1 + (s.next().output() * 65535) / 0x1_0000_0000_0000_0000;
            &&& !e.drop
            &&& e.inject.len() == 0
            &&& e.modified is Some
            &&& e.modified->0.len() == p.len()
            &&& 256 * e.modified->0[10] + e.modified->0[11] == (256 * p[10] + p[11] + d1)
                % 0x1_0000
            &&& at + 2 <= p.len() ==> 256 * e.modified->0[at] + e.modified->0[at + 1] == (256
                * p[at] + p[at + 1] + d2) % 0x1_0000
            &&& after == if at + 2 <= p.len() {
                s.next().next()
            } else {
                s.next()
            }
        }),
{
    spoiling_changes_the_checksums(p, s.output(), s.next().output());
}

/// A packet with a complete header is replaced by one with the new TTL and a
/// checksum to match, the same in every other byte; nothing else is sent. Any
/// other packet is left alone.
pub proof fn new_ttl_is_sent(p: Seq<u8>, ttl: u8)
    ensures
        ({
            let e = ttl_effect(p, ttl);
            let valid = p.len() >= 20 && 0x45 <= p[0] <= 0x4f && 4 * (p[0] - 0x40) <= p.len();
            &&& !e.drop
            &&& e.inject.len() == 0
            &&& e.modified is Some <==> valid
            &&& valid ==> {
                let q = e.modified->0;
                &&& q.len() == p.len()
                &&& q[8] == ttl
                &&& desync::sum_of_words(q) % 0xffff == 0
                &&& forall|i: int|
                    0 <= i < p.len() && i != 8 && i != 10 && i != 11 ==> #[trigger] q[i] == p[i]
            }
        }),
{
    if desync::is_ipv4(p) {
        new_ttl_takes_effect(p, ttl);
        desync::verified_words_add_up(with_ttl(p, ttl));
    }
}

/// A draw moves the TTL by what it is scaled to, from three hops less to three
/// more, kept between 1 and 255. A packet that already has this TTL is left
/// alone; any other is replaced by one with this TTL and a checksum to match.
pub proof fn jitter_moves_by_what_was_drawn(p: Seq<u8>, base: Option<u8>, draw: u64)
    requires
        desync::is_ipv4(p),
    ensures
        ({
            let e = jitter_effect(p, base, draw);
            let from: int = match base {
                Some(b) => b as int,
                None => p[8] as int,
            };
            let moved: int = from - 3 + (draw * 7) / 0x1_0000_0000_0000_0000;
            let ttl: int = if moved <= 0 {
                1
            } else if moved >= 256 {
                255
            } else {
                moved
            };
            &&& !e.drop
            &&& e.inject.len() == 0
            &&& e.modified is None <==> p[8] == ttl
            &&& e.modified is Some ==> {
                let q = e.modified->0;
                &&& q.len() == p.len()
                &&& q[8] == ttl
                &&& desync::sum_of_words(q) % 0xffff == 0
                &&& forall|i: int|
                    0 <= i < p.len() && i != 8 && i != 10 && i != 11 ==> #[trigger] q[i] == p[i]
            }
        }),
{
    let from: u8 = match base {
        Some(b) => b,
        None => p[8],
    };
    let ttl: u8 = jittered(from, draw);
    rand::scaled_is_below(draw, 7);
    new_ttl_takes_effect(p, ttl);
    desync::verified_words_add_up(with_ttl(p, ttl));
}

/// A packet whose mark differs is replaced by one with the lower six bits of the
/// value above its two ECN bits and a checksum to match, the same in every other
/// byte. Any other packet is left alone.
pub proof fn new_mark_is_sent(p: Seq<u8>, value: u8)
    ensures
        ({
            let e = dscp_effect(p, value);
            let valid = p.len() >= 20 && 0x45 <= p[0] <= 0x4f && 4 * (p[0] - 0x40) <= p.len();
            &&& !e.drop
            &&& e.inject.len() == 0
            &&& e.modified is Some <==> valid && p[1] as int / 4 != value as int % 64
            &&& e.modified is Some ==> {
                let q = e.modified->0;
                &&& q.len() == p.len()
                &&& q[1] == 4 * (value as int % 64) + p[1] as int % 4
                &&& desync::sum_of_words(q) % 0xffff == 0
                &&& forall|i: int|
                    0 <= i < p.len() && i != 1 && i != 10 && i != 11 ==> #[trigger] q[i] == p[i]
            }
        }),
{
    if desync::is_ipv4(p) {
        mark_takes_effect(p, value);
        desync::verified_words_add_up(with_dscp(p, value % 64));
    }
}

/// A reset is told by three things behind a complete header: the protocol is
/// TCP, a whole TCP header follows, and the third-lowest bit of its flags is
/// set.
pub proof fn resets_are_told_by_their_bytes(p: Seq<u8>)
    ensures
        is_tcp_reset(p) <==> {
            let start = 4 * (p[0] - 0x40);
            &&& p.len() >= 20
            &&& 0x45 <= p[0] <= 0x4f
            &&& start + 20 <= p.len()
            &&& p[9] == 6
            &&& p[start + 13] as int % 8 >= 4
        },
{
    if desync::is_ipv4(p) && desync::payload_of(p).len() >= 20 {
        assert(desync::payload_of(p)[13] == p[4 * (p[0] - 0x40) + 13]);
    }
}

/// A fragment may be as long as an IPv4 packet can be, less a plain header.
pub proof fn fragments_fill_a_packet()
    ensures
        MAX_FRAGMENT_PAYLOAD + 20 == 0xffff,
{
}

} // verus!
