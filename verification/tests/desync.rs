use freedpi::desync::ip::{
    bad_checksum, dscp_random, frag_overlap, ip_frag_primitives, mutual_spoof, rst_drop_ip_id,
    ttl_jitter, ttl_manipulation,
};
use freedpi::desync::{ipv4_checksum, parse_ip_header, DesyncResult};
use freedpi::rand::Xoshiro256;

/// A TCP segment from 192.168.1.10 to 93.184.216.34 with four bytes of data,
/// with DSCP 10, ECN 2, TTL 64 and identification 0x1234.
fn packet() -> Vec<u8> {
    vec![
        69, 42, 0, 44, 18, 52, 0, 0, 64, 6, 112, 225, 192, 168, 1, 10, 93, 184, 216, 34, // IP
        1, 187, 195, 80, 0, 0, 0, 1, 0, 0, 0, 2, 80, 24, 32, 0, 171, 205, 0, 0, // TCP
        10, 11, 12, 13,
    ]
}

/// The generator in the state (1, 2, 3, 4), `n` draws later.
fn after(n: usize) -> Xoshiro256 {
    let mut rng = Xoshiro256 { s0: 1, s1: 2, s2: 3, s3: 4 };
    for _ in 0..n {
        rng.draw();
    }
    rng
}

fn is_passthrough(r: &DesyncResult) -> bool {
    r.modified.is_none() && r.inject.is_empty() && !r.drop
}

/// The sum that a receiver makes of the header words.
fn receiver_sum(p: &[u8]) -> u32 {
    let mut sum: u32 = 0;
    for i in 0..10 {
        sum += p[2 * i] as u32 * 256 + p[2 * i + 1] as u32;
    }
    while sum > 0xffff {
        sum = (sum >> 16) + (sum & 0xffff);
    }
    sum
}

#[test]
fn headers_are_read() {
    let ip = parse_ip_header(&packet()).unwrap();
    assert_eq!(ip.header_len, 20);
    assert_eq!(ip.identification, 0x1234);
    assert_eq!(ip.ttl, 64);
    assert_eq!(ip.protocol, 6);
    assert_eq!(ip.src, [192, 168, 1, 10]);
    assert_eq!(ip.dst, [93, 184, 216, 34]);
}

#[test]
fn incomplete_headers_are_refused() {
    assert!(parse_ip_header(&[]).is_none());
    assert!(parse_ip_header(&packet()[..19]).is_none());
    let mut v6 = packet();
    v6[0] = 0x65;
    assert!(parse_ip_header(&v6).is_none());
    let mut short = packet();
    short[0] = 0x44;
    assert!(parse_ip_header(&short).is_none());
    let mut long = packet()[..20].to_vec();
    long[0] = 0x46;
    assert!(parse_ip_header(&long).is_none());
    assert!(parse_ip_header(&packet()[..20]).is_some());
}

#[test]
fn checksums_verify_at_the_receiver() {
    let p = packet();
    assert_eq!(ipv4_checksum(&p), 112 * 256 + 225);
    assert_eq!(receiver_sum(&p), 0xffff);
    assert_eq!(ipv4_checksum(&[0u8; 20]), 0xffff);
}

#[test]
fn overlap_sends_a_decoy_and_the_payload() {
    let r = frag_overlap(&packet(), &[1, 2, 3, 4, 5], 1);
    assert!(r.modified.is_none());
    assert!(!r.drop);
    assert_eq!(r.inject.len(), 2);
    assert_eq!(
        r.inject[0].to_vec(),
        vec![
            69, 0, 0, 25, 18, 53, 32, 0, 63, 6, 82, 29, 192, 168, 1, 10, 93, 184, 216, 34, 1, 2, 3,
            4, 5
        ]
    );
    assert_eq!(
        r.inject[1].to_vec(),
        vec![
            69, 0, 0, 44, 18, 53, 0, 2, 64, 6, 113, 8, 192, 168, 1, 10, 93, 184, 216, 34, 1, 187,
            195, 80, 0, 0, 0, 1, 0, 0, 0, 2, 80, 24, 32, 0, 171, 205, 0, 0, 10, 11, 12, 13
        ]
    );
}

#[test]
fn overlap_needs_a_payload() {
    assert!(is_passthrough(&frag_overlap(&packet()[..20], &[1], 1)));
    assert!(is_passthrough(&frag_overlap(&[1, 2, 3], &[1], 1)));
}

#[test]
fn overlap_assumes_a_plain_tcp_header_where_it_cannot_see_one() {
    let r = frag_overlap(&packet()[..24], &[], 255);
    // The decoy keeps a TTL of zero at least.
    assert_eq!(r.inject[0][8], 0);
    assert_eq!(r.inject[1][7], 2);
    let mut p = packet();
    p[32] = 0xf0;
    // A header of 60 bytes ends in the eighth unit of eight bytes.
    assert_eq!(frag_overlap(&p, &[], 0).inject[1][7], 7);
}

#[test]
fn fragments_carry_the_payload_in_order() {
    let r = ip_frag_primitives(&packet(), 8, 3);
    assert_eq!(r.inject.len(), 3);
    assert_eq!(
        r.inject[0].to_vec(),
        vec![
            69, 0, 0, 28, 18, 53, 32, 0, 61, 6, 84, 26, 192, 168, 1, 10, 93, 184, 216, 34, 1, 187,
            195, 80, 0, 0, 0, 1
        ]
    );
    assert_eq!(
        r.inject[1].to_vec(),
        vec![
            69, 0, 0, 28, 18, 53, 32, 1, 61, 6, 84, 25, 192, 168, 1, 10, 93, 184, 216, 34, 0, 0, 0,
            2, 80, 24, 32, 0
        ]
    );
    assert_eq!(
        r.inject[2].to_vec(),
        vec![
            69, 0, 0, 28, 18, 53, 0, 2, 64, 6, 113, 24, 192, 168, 1, 10, 93, 184, 216, 34, 171,
            205, 0, 0, 10, 11, 12, 13
        ]
    );
    let mut joined: Vec<u8> = Vec::new();
    for f in &r.inject {
        joined.extend_from_slice(&f[20..]);
        assert_eq!(receiver_sum(f), 0xffff);
    }
    assert_eq!(joined, packet()[20..].to_vec());
}

#[test]
fn a_payload_that_fits_is_not_fragmented() {
    assert!(is_passthrough(&ip_frag_primitives(&packet(), 24, 3)));
    assert_eq!(ip_frag_primitives(&packet(), 23, 3).inject.len(), 2);
    assert_eq!(ip_frag_primitives(&packet(), 1, 3).inject.len(), 24);
    assert!(is_passthrough(&ip_frag_primitives(&[0; 40], 1, 3)));
}

#[test]
fn bad_checksums_are_wrong() {
    let r = bad_checksum(&mut after(4), &packet());
    let m = r.modified.unwrap();
    let mut expected = packet();
    expected[10] = 240;
    expected[11] = 244;
    expected[36] = 54;
    expected[37] = 55;
    assert_eq!(m, expected);
    assert!(r.inject.is_empty() && !r.drop);
    assert_ne!(receiver_sum(&m), 0xffff);
}

#[test]
fn a_short_packet_has_only_its_ip_checksum_spoiled() {
    let mut rng = after(4);
    let r = bad_checksum(&mut rng, &packet()[..37]);
    let m = r.modified.unwrap();
    assert_eq!(m[10..12], [240, 244]);
    assert_eq!(m[12..], packet()[12..37]);
    // One draw was made, not two.
    assert_eq!(rng.draw(), 9973669472204895162);
    let mut rng = after(4);
    assert!(is_passthrough(&bad_checksum(&mut rng, &[1, 2])));
    assert_eq!(rng.draw(), 9228616714210784205);
}

#[test]
fn ttl_is_replaced() {
    let m = ttl_manipulation(&packet(), 128).modified.unwrap();
    let mut expected = packet();
    expected[8] = 128;
    expected[10] = 48;
    expected[11] = 225;
    assert_eq!(m, expected);
    assert_eq!(receiver_sum(&m), 0xffff);
    // The last TTL wins.
    assert_eq!(ttl_manipulation(&m, 64).modified.unwrap(), packet());
    assert!(is_passthrough(&ttl_manipulation(&[69; 10], 1)));
}

#[test]
fn ttl_jitters_by_three_hops_at_most() {
    let m = ttl_jitter(&mut after(0), &packet(), None).modified.unwrap();
    assert_eq!(m[8..12], [61, 6, 115, 225]);
    let m = ttl_jitter(&mut after(6), &packet(), Some(10)).modified.unwrap();
    assert_eq!(m[8..12], [12, 6, 164, 225]);
    let m = ttl_jitter(&mut after(0), &packet(), Some(2)).modified.unwrap();
    assert_eq!(m[8..12], [1, 6, 175, 225]);
    let m = ttl_jitter(&mut after(8), &packet(), Some(254)).modified.unwrap();
    assert_eq!(m[8..12], [255, 6, 177, 224]);
    assert!(is_passthrough(&ttl_jitter(&mut after(4), &packet(), None)));
    assert!(is_passthrough(&ttl_jitter(&mut after(0), &[], None)));
    let mut rng = Xoshiro256::new();
    for _ in 0..100 {
        let r = ttl_jitter(&mut rng, &packet(), None);
        if let Some(m) = r.modified {
            assert!(m[8] >= 61 && m[8] <= 67 && m[8] != 64);
            assert_eq!(receiver_sum(&m), 0xffff);
        }
    }
}

#[test]
fn dscp_is_replaced_and_ecn_kept() {
    let m = dscp_random(&packet(), 0x2e).modified.unwrap();
    assert_eq!(m[1], 186);
    assert_eq!(m[10..12], [112, 81]);
    assert_eq!(m[12..], packet()[12..]);
    // Only six bits of the value count.
    assert_eq!(dscp_random(&packet(), 0x2e | 0xc0).modified.unwrap(), m);
    assert!(is_passthrough(&dscp_random(&packet(), 10)));
    assert!(is_passthrough(&dscp_random(&m, 0x2e)));
    assert!(is_passthrough(&dscp_random(&[], 1)));
}

#[test]
fn injected_resets_are_dropped() {
    let mut p = packet();
    p[4] = 0;
    p[5] = 0x0f;
    p[33] = 0x04;
    let r = rst_drop_ip_id(&p);
    assert!(r.drop && r.modified.is_none() && r.inject.is_empty());
    p[33] = 0x14;
    assert!(rst_drop_ip_id(&p).drop);

    let mut high = p.clone();
    high[5] = 0x10;
    assert!(is_passthrough(&rst_drop_ip_id(&high)));
    let mut ack = p.clone();
    ack[33] = 0x18;
    assert!(is_passthrough(&rst_drop_ip_id(&ack)));
    let mut udp = p.clone();
    udp[9] = 17;
    assert!(is_passthrough(&rst_drop_ip_id(&udp)));
    assert!(is_passthrough(&rst_drop_ip_id(&p[..39])));
    assert!(is_passthrough(&rst_drop_ip_id(&p[..10])));
}

#[test]
fn addresses_are_not_swapped() {
    assert!(is_passthrough(&mutual_spoof(&packet())));
    assert!(is_passthrough(&mutual_spoof(&[])));
}

#[test]
fn outcomes_are_what_they_say() {
    assert!(is_passthrough(&DesyncResult::passthrough()));
    assert_eq!(DesyncResult::modified_only(vec![1]).modified, Some(vec![1]));
    assert!(DesyncResult::drop_packet().drop);
}
