//! The field setters of `pnet_packet`.

use pnet_packet::ip::IpNextHeaderProtocol;
use pnet_packet::ipv4::MutableIpv4Packet;
use pnet_packet::tcp::TcpPacket;
use pnet_packet::MutablePacket;
use vstd::prelude::*;

verus! {

/// `MutableIpv4Packet::set_version`: the lower four bits of `version` become
/// the upper half of byte 0.
#[verifier::external_body]
pub(crate) fn set_version(buf: &mut Vec<u8>, version: u8)
    requires
        old(buf)@.len() >= 20,
    ensures
        final(buf)@ == old(buf)@.update(0, ((version % 16) * 16 + old(buf)@[0] % 16) as u8),
{
    MutableIpv4Packet::new(buf.as_mut_slice()).unwrap().set_version(version);
}

/// `MutableIpv4Packet::set_header_length`: the lower four bits of `words`
/// become the lower half of byte 0.
#[verifier::external_body]
pub(crate) fn set_header_length(buf: &mut Vec<u8>, words: u8)
    requires
        old(buf)@.len() >= 20,
    ensures
        final(buf)@ == old(buf)@.update(0, ((old(buf)@[0] / 16) * 16 + words % 16) as u8),
{
    MutableIpv4Packet::new(buf.as_mut_slice()).unwrap().set_header_length(words);
}

/// `MutableIpv4Packet::set_total_length`: big-endian in bytes 2 and 3.
#[verifier::external_body]
pub(crate) fn set_total_length(buf: &mut Vec<u8>, length: u16)
    requires
        old(buf)@.len() >= 20,
    ensures
        final(buf)@ == super::put_be16(old(buf)@, 2, length as int),
{
    MutableIpv4Packet::new(buf.as_mut_slice()).unwrap().set_total_length(length);
}

/// `MutableIpv4Packet::set_identification`: big-endian in bytes 4 and 5.
#[verifier::external_body]
pub(crate) fn set_identification(buf: &mut Vec<u8>, identification: u16)
    requires
        old(buf)@.len() >= 20,
    ensures
        final(buf)@ == super::put_be16(old(buf)@, 4, identification as int),
{
    MutableIpv4Packet::new(buf.as_mut_slice()).unwrap().set_identification(identification);
}

/// `MutableIpv4Packet::set_flags`: the lower three bits of `flags` become the
/// upper three bits of byte 6.
#[verifier::external_body]
pub(crate) fn set_flags(buf: &mut Vec<u8>, flags: u8)
    requires
        old(buf)@.len() >= 20,
    ensures
        final(buf)@ == old(buf)@.update(6, ((flags % 8) * 32 + old(buf)@[6] % 32) as u8),
{
    MutableIpv4Packet::new(buf.as_mut_slice()).unwrap().set_flags(flags);
}

/// `MutableIpv4Packet::set_fragment_offset`: the lower thirteen bits of
/// `offset`, big-endian in the lower five bits of byte 6 and in byte 7.
#[verifier::external_body]
pub(crate) fn set_fragment_offset(buf: &mut Vec<u8>, offset: u16)
    requires
        old(buf)@.len() >= 20,
    ensures
        final(buf)@ == old(buf)@.update(
            6,
            ((old(buf)@[6] / 32) * 32 + (offset / 256) % 32) as u8,
        ).update(7, (offset % 256) as u8),
{
    MutableIpv4Packet::new(buf.as_mut_slice()).unwrap().set_fragment_offset(offset);
}

/// `MutableIpv4Packet::set_ttl`: byte 8.
#[verifier::external_body]
pub(crate) fn set_ttl(buf: &mut Vec<u8>, ttl: u8)
    requires
        old(buf)@.len() >= 20,
    ensures
        final(buf)@ == old(buf)@.update(8, ttl),
{
    MutableIpv4Packet::new(buf.as_mut_slice()).unwrap().set_ttl(ttl);
}

/// `MutableIpv4Packet::set_next_level_protocol`: byte 9.
#[verifier::external_body]
pub(crate) fn set_next_level_protocol(buf: &mut Vec<u8>, protocol: u8)
    requires
        old(buf)@.len() >= 20,
    ensures
        final(buf)@ == old(buf)@.update(9, protocol),
{
    MutableIpv4Packet::new(buf.as_mut_slice()).unwrap().set_next_level_protocol(
        IpNextHeaderProtocol::new(protocol),
    );
}

/// `MutableIpv4Packet::set_source`: the four octets become bytes 12 to 15.
#[verifier::external_body]
pub(crate) fn set_source(buf: &mut Vec<u8>, octets: [u8; 4])
    requires
        old(buf)@.len() >= 20,
    ensures
        final(buf)@ == old(buf)@.update(12, octets@[0]).update(13, octets@[1]).update(
            14,
            octets@[2],
        ).update(15, octets@[3]),
{
    MutableIpv4Packet::new(buf.as_mut_slice()).unwrap().set_source(octets.into());
}

/// `MutableIpv4Packet::set_destination`: the four octets become bytes 16 to 19.
#[verifier::external_body]
pub(crate) fn set_destination(buf: &mut Vec<u8>, octets: [u8; 4])
    requires
        old(buf)@.len() >= 20,
    ensures
        final(buf)@ == old(buf)@.update(16, octets@[0]).update(17, octets@[1]).update(
            18,
            octets@[2],
        ).update(19, octets@[3]),
{
    MutableIpv4Packet::new(buf.as_mut_slice()).unwrap().set_destination(octets.into());
}

/// `MutableIpv4Packet::payload_mut`, filled with `payload`: in a packet whose
/// header is five words long and whose total length says that `payload` is all
/// that follows, everything behind byte 19 is replaced.
#[verifier::external_body]
pub(crate) fn fill_payload(buf: &mut Vec<u8>, payload: &[u8])
    requires
        old(buf)@.len() == 20 + payload@.len(),
        old(buf)@[0] % 16 == 5,
        super::be16(old(buf)@, 2) == 20 + payload@.len(),
    ensures
        final(buf)@ == old(buf)@.take(20) + payload@,
{
    MutableIpv4Packet::new(buf.as_mut_slice()).unwrap().payload_mut().copy_from_slice(payload);
}

/// `TcpPacket::new` and `TcpPacket::get_flags`: a segment has a header if it
/// has at least 20 bytes, and the flags are its byte 13.
#[verifier::external_body]
pub(crate) fn tcp_flags(segment: &[u8]) -> (flags: Option<u8>)
    ensures
        flags == (if segment@.len() >= 20 {
            Some(segment@[13])
        } else {
            None
        }),
{
    TcpPacket::new(segment).map(|tcp| tcp.get_flags())
}

} // verus!
