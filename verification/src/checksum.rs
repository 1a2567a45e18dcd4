//! The Internet checksum of a TCP segment over its IPv4 or IPv6
//! pseudo-header.

use vstd::prelude::*;
use crate::address::{IpAddress, IpConfig};
use crate::error::ConfigError;

verus! {

/// The length in bytes of a TCP header without options.
pub const TCP_HEADER_LEN: usize = 20;

/// The number of 16-bit words in a TCP header without options.
pub const TCP_HEADER_WORDS: usize = 10;

/// The index of the 16-bit word that holds the checksum.
pub const CHECKSUM_WORD: usize = 8;

/// The protocol number of TCP in an IP pseudo-header.
pub const TCP_PROTOCOL: u8 = 6;

/// The 16-bit big-endian word of `data` at word index `index`.
pub open spec fn be_word(data: Seq<u8>, index: int) -> nat {
    (data[2 * index] as nat) * 256 + (data[2 * index + 1] as nat)
}

/// The sum of the first `count` 16-bit big-endian words of `data`.
pub open spec fn word_sum(data: Seq<u8>, count: nat) -> nat
    decreases count,
{
    if count == 0 {
        0
    } else {
        word_sum(data, (count - 1) as nat) + be_word(data, count - 1)
    }
}

/// The sum of the 16-bit words that make up an address.
pub open spec fn address_word_sum(address: IpAddress) -> nat {
    match address {
        IpAddress::V4(a) => (a as nat) / 0x1_0000 + (a as nat) % 0x1_0000,
        IpAddress::V6(a) => {
            let a = a as nat;
            a % 0x1_0000
                + (a / 0x1_0000) % 0x1_0000
                + (a / 0x1_0000_0000) % 0x1_0000
                + (a / 0x1_0000_0000_0000) % 0x1_0000
                + (a / 0x1_0000_0000_0000_0000) % 0x1_0000
                + (a / 0x1_0000_0000_0000_0000_0000) % 0x1_0000
                + (a / 0x1_0000_0000_0000_0000_0000_0000) % 0x1_0000
                + a / 0x1_0000_0000_0000_0000_0000_0000_0000
        },
    }
}

/// The sum of the 16-bit words of the pseudo-header that stands before a TCP
/// segment of `length` bytes: both addresses, the protocol number and the
/// length.
pub open spec fn pseudo_header_sum(ip: IpConfig, length: nat) -> nat {
    address_word_sum(ip.source) + address_word_sum(ip.target) + TCP_PROTOCOL as nat + length
}

/// Folds the carries above bit 15 back into the low 16 bits until none is
/// left (the end-around carry of one's-complement addition).
pub open spec fn fold_carries(sum: nat) -> nat
    decreases sum,
{
    if sum < 0x1_0000 {
        sum
    } else {
        fold_carries(sum / 0x1_0000 + sum % 0x1_0000)
    }
}

/// The one's-complement sum of 16-bit words whose plain sum is `sum`: zero
/// for zero, else the one value in 1..=0xFFFF that is congruent to `sum`
/// modulo 0xFFFF.
pub open spec fn ones_complement_sum(sum: nat) -> nat {
    if sum == 0 {
        0
    } else {
        ((sum - 1) % 0xFFFF + 1) as nat
    }
}

/// The sum that a 20-byte segment contributes together with its
/// pseudo-header, the checksum field counted as it stands.
pub open spec fn segment_total(ip: IpConfig, segment: Seq<u8>) -> nat {
    pseudo_header_sum(ip, TCP_HEADER_LEN as nat) + word_sum(segment, TCP_HEADER_WORDS as nat)
}

/// The checksum that belongs in a 20-byte TCP segment: the complement of the
/// one's-complement sum over the pseudo-header and the segment, the
/// segment's own checksum field counted as zero.
pub open spec fn tcp_checksum(ip: IpConfig, segment: Seq<u8>) -> u16 {
    (0xFFFF - fold_carries(
        (segment_total(ip, segment) - be_word(segment, CHECKSUM_WORD as int)) as nat,
    )) as u16
}

/// Whether `segment` is a 20-byte segment that carries the right checksum:
/// the one's-complement sum over pseudo-header and segment, checksum
/// included, is all ones.
pub open spec fn checksum_valid(ip: IpConfig, segment: Seq<u8>) -> bool {
    segment.len() == TCP_HEADER_LEN && fold_carries(segment_total(ip, segment)) == 0xFFFF
}

/// Folding carries computes the one's-complement sum.
pub proof fn lemma_fold_carries(sum: nat)
    ensures
        fold_carries(sum) == ones_complement_sum(sum),
    decreases sum,
{
    if sum >= 0x1_0000 {
        let quotient = sum / 0x1_0000;
        let folded = quotient + sum % 0x1_0000;
        lemma_fold_carries(folded);
        assert(sum - 1 == 0xFFFF * quotient + (folded - 1));
        assert((sum - 1) % 0xFFFF == (folded - 1) % 0xFFFF) by {
            vstd::arithmetic::div_mod::lemma_mod_multiples_vanish(
                quotient as int,
                folded - 1,
                0xFFFF,
            );
        }
    }
}

/// Calls `pnet::packet::tcp::ipv4_checksum` on a 20-byte segment. The
/// contract claims of it what its source shows: it adds up, as 16-bit
/// big-endian words, both addresses, the protocol number 6, the segment's
/// length and every word of the segment but the checksum word, folds the
/// carries and returns the complement.
#[verifier::external_body]
fn ipv4_checksum(segment: &[u8], source: u32, destination: u32) -> (checksum: u16)
    requires
        segment@.len() == TCP_HEADER_LEN,
    ensures
        checksum == tcp_checksum(
            (IpConfig { target: IpAddress::V4(destination), source: IpAddress::V4(source) }),
            segment@,
        ),
{
    let packet = pnet::packet::tcp::TcpPacket::new(segment).unwrap();
    pnet::packet::tcp::ipv4_checksum(&packet, &source.into(), &destination.into())
}

/// Calls `pnet::packet::tcp::ipv6_checksum` on a 20-byte segment. The
/// contract claims of it what its source shows: the same sum as for IPv4,
/// with the eight 16-bit words of each address.
#[verifier::external_body]
fn ipv6_checksum(segment: &[u8], source: u128, destination: u128) -> (checksum: u16)
    requires
        segment@.len() == TCP_HEADER_LEN,
    ensures
        checksum == tcp_checksum(
            (IpConfig { target: IpAddress::V6(destination), source: IpAddress::V6(source) }),
            segment@,
        ),
{
    let packet = pnet::packet::tcp::TcpPacket::new(segment).unwrap();
    pnet::packet::tcp::ipv6_checksum(&packet, &source.into(), &destination.into())
}

/// Computes the checksum that belongs in a 20-byte TCP segment sent between
/// the two addresses of `ip_config`. Fails, without computing anything, when
/// the addresses are of different families.
pub(crate) fn segment_checksum(ip_config: &IpConfig, segment: &[u8]) -> (result: Result<u16, ConfigError>)
    requires
        segment@.len() == TCP_HEADER_LEN,
    ensures
        match result {
            Ok(checksum) => ip_config.well_formed() && checksum == tcp_checksum(
                *ip_config,
                segment@,
            ),
            Err(e) => !ip_config.well_formed() && e == ConfigError::FamilyMismatch,
        },
{
    match (ip_config.source, ip_config.target) {
        (IpAddress::V4(source), IpAddress::V4(target)) => Ok(ipv4_checksum(segment, source, target)),
        (IpAddress::V6(source), IpAddress::V6(target)) => Ok(ipv6_checksum(segment, source, target)),
        _ => Err(ConfigError::FamilyMismatch),
    }
}

/// Adds up the 16-bit words of an address.
fn address_words(address: &IpAddress) -> (sum: u64)
    ensures
        sum == address_word_sum(*address),
        sum <= 8 * 0xFFFF,
{
    match address {
        IpAddress::V4(a) => (*a / 0x1_0000) as u64 + (*a % 0x1_0000) as u64,
        IpAddress::V6(a) => {
            let a: u128 = *a;
            let sum: u128 = a % 0x1_0000 + (a / 0x1_0000) % 0x1_0000 + (a / 0x1_0000_0000)
                % 0x1_0000 + (a / 0x1_0000_0000_0000) % 0x1_0000 + (a / 0x1_0000_0000_0000_0000)
                % 0x1_0000 + (a / 0x1_0000_0000_0000_0000_0000) % 0x1_0000 + (a
                / 0x1_0000_0000_0000_0000_0000_0000) % 0x1_0000 + a
                / 0x1_0000_0000_0000_0000_0000_0000_0000;
            sum as u64
        },
    }
}

/// Tells whether `segment` is a 20-byte segment that carries the right
/// checksum for the two addresses of `ip_config`.
pub fn checksum_is_valid(ip_config: &IpConfig, segment: &[u8]) -> (valid: bool)
    ensures
        valid == checksum_valid(*ip_config, segment@),
{
    if segment.len() != TCP_HEADER_LEN {
        return false;
    }
    let mut sum: u64 = address_words(&ip_config.source) + address_words(&ip_config.target)
        + TCP_PROTOCOL as u64 + TCP_HEADER_LEN as u64;
    let mut index: usize = 0;
    while index < TCP_HEADER_WORDS
        invariant
            index <= TCP_HEADER_WORDS,
            segment@.len() == TCP_HEADER_LEN,
            sum == pseudo_header_sum(*ip_config, TCP_HEADER_LEN as nat) + word_sum(
                segment@,
                index as nat,
            ),
            sum <= 16 * 0xFFFF + 26 + index * 0xFFFF,
        decreases TCP_HEADER_WORDS - index,
    {
        let word: u64 = segment[2 * index] as u64 * 256 + segment[2 * index + 1] as u64;
        sum = sum + word;
        index = index + 1;
    }
    let ghost total = sum as nat;
    while sum >= 0x1_0000
        invariant
            fold_carries(sum as nat) == fold_carries(total),
        decreases sum,
    {
        sum = sum / 0x1_0000 + sum % 0x1_0000;
    }
    sum == 0xFFFF
}

} // verus!
