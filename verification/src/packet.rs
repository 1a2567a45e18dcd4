//! Construction of the 20-byte TCP segment that a probe sends.

use vstd::prelude::*;
use crate::address::{IpConfig, PortConfig};
use crate::checksum::{
    be_word, checksum_valid, lemma_fold_carries, segment_checksum, segment_total, tcp_checksum,
    word_sum, CHECKSUM_WORD, TCP_HEADER_LEN,
};
use crate::error::ConfigError;

verus! {

/// The flag bit of a segment that opens a connection.
pub const SYN: u8 = 0x02;

/// The flag bit of a segment that resets a connection.
pub const RST: u8 = 0x04;

/// The byte that holds the data offset (five 32-bit words, no options) in
/// its high half and the reserved bits, all zero, in its low half.
pub const DATA_OFFSET_BYTE: u8 = 0x50;

/// The 20 bytes of a TCP header without options: the two ports, sequence
/// and acknowledgement number zero, the data offset, the flags, window zero,
/// the checksum and urgent pointer zero, each field big-endian.
pub open spec fn header_bytes(source: u16, destination: u16, flags: u8, checksum: u16) -> Seq<u8> {
    seq![
        (source / 256) as u8,
        (source % 256) as u8,
        (destination / 256) as u8,
        (destination % 256) as u8,
        0u8,
        0u8,
        0u8,
        0u8,
        0u8,
        0u8,
        0u8,
        0u8,
        DATA_OFFSET_BYTE,
        flags,
        0u8,
        0u8,
        (checksum / 256) as u8,
        (checksum % 256) as u8,
        0u8,
        0u8,
    ]
}

/// The segment of a probe: the header for its ports and flags, carrying the
/// checksum of that header over the pseudo-header of its addresses.
pub open spec fn tcp_segment(ip: IpConfig, ports: PortConfig, flags: u8) -> Seq<u8> {
    header_bytes(
        ports.source,
        ports.target,
        flags,
        tcp_checksum(ip, header_bytes(ports.source, ports.target, flags, 0)),
    )
}

/// Writes into `buffer` the segment with the given flags.
fn write_segment(
    buffer: &mut [u8],
    ip_config: &IpConfig,
    port_config: &PortConfig,
    flags: u8,
) -> (result: Result<(), ConfigError>)
    requires
        old(buffer)@.len() == TCP_HEADER_LEN,
    ensures
        match result {
            Ok(()) => ip_config.well_formed() && final(buffer)@ == tcp_segment(
                *ip_config,
                *port_config,
                flags,
            ) && checksum_valid(*ip_config, final(buffer)@),
            Err(e) => !ip_config.well_formed() && e == ConfigError::FamilyMismatch
                && final(buffer)@ == old(buffer)@,
        },
{
    if !ip_config.is_well_formed() {
        return Err(ConfigError::FamilyMismatch);
    }
    buffer[0] = (port_config.source / 256) as u8;
    buffer[1] = (port_config.source % 256) as u8;
    buffer[2] = (port_config.target / 256) as u8;
    buffer[3] = (port_config.target % 256) as u8;
    buffer[4] = 0;
    buffer[5] = 0;
    buffer[6] = 0;
    buffer[7] = 0;
    buffer[8] = 0;
    buffer[9] = 0;
    buffer[10] = 0;
    buffer[11] = 0;
    buffer[12] = DATA_OFFSET_BYTE;
    buffer[13] = flags;
    buffer[14] = 0;
    buffer[15] = 0;
    buffer[16] = 0;
    buffer[17] = 0;
    buffer[18] = 0;
    buffer[19] = 0;
    assert(buffer@ =~= header_bytes(port_config.source, port_config.target, flags, 0));
    match segment_checksum(ip_config, buffer) {
        Ok(checksum) => {
            buffer[16] = (checksum / 256) as u8;
            buffer[17] = (checksum % 256) as u8;
            proof {
                lemma_built_segment_validates(*ip_config, *port_config, flags);
            }
            Ok(())
        },
        Err(e) => Err(e),
    }
}

/// Builds the SYN segment of a probe into the caller's 20-byte buffer. The
/// segment carries the checksum that validates it.
///
/// Fails with `ConfigError::FamilyMismatch`, leaving the buffer as it was,
/// when the two addresses are of different families.
pub fn build_packet(buffer: &mut [u8], ip_config: &IpConfig, port_config: &PortConfig) -> (result:
    Result<(), ConfigError>)
    requires
        old(buffer)@.len() == TCP_HEADER_LEN,
    ensures
        match result {
            Ok(()) => ip_config.well_formed() && final(buffer)@ == tcp_segment(
                *ip_config,
                *port_config,
                SYN,
            ) && checksum_valid(*ip_config, final(buffer)@),
            Err(e) => !ip_config.well_formed() && e == ConfigError::FamilyMismatch
                && final(buffer)@ == old(buffer)@,
        },
{
    write_segment(buffer, ip_config, port_config, SYN)
}

/// Builds the RST segment that abandons a half-open connection into the
/// caller's 20-byte buffer. The segment carries the checksum that validates
/// it.
///
/// Fails with `ConfigError::FamilyMismatch`, leaving the buffer as it was,
/// when the two addresses are of different families.
pub fn build_rst_packet(buffer: &mut [u8], ip_config: &IpConfig, port_config: &PortConfig) -> (result:
    Result<(), ConfigError>)
    requires
        old(buffer)@.len() == TCP_HEADER_LEN,
    ensures
        match result {
            Ok(()) => ip_config.well_formed() && final(buffer)@ == tcp_segment(
                *ip_config,
                *port_config,
                RST,
            ) && checksum_valid(*ip_config, final(buffer)@),
            Err(e) => !ip_config.well_formed() && e == ConfigError::FamilyMismatch
                && final(buffer)@ == old(buffer)@,
        },
{
    write_segment(buffer, ip_config, port_config, RST)
}

/// A segment that carries the checksum computed for it validates: summed
/// with its pseudo-header, checksum included, it gives all ones. This holds
/// for every pair of addresses, every pair of ports and every flag byte.
pub proof fn lemma_built_segment_validates(ip: IpConfig, ports: PortConfig, flags: u8)
    ensures
        tcp_segment(ip, ports, flags).len() == TCP_HEADER_LEN,
        checksum_valid(ip, tcp_segment(ip, ports, flags)),
{
    let blank = header_bytes(ports.source, ports.target, flags, 0);
    let checksum = tcp_checksum(ip, blank);
    let built = header_bytes(ports.source, ports.target, flags, checksum);
    let before = segment_total(ip, blank);
    let after = segment_total(ip, built);
    reveal_with_fuel(word_sum, 11);
    assert(be_word(blank, CHECKSUM_WORD as int) == 0);
    assert(be_word(built, CHECKSUM_WORD as int) == checksum);
    assert(after == before + checksum);
    lemma_fold_carries(before);
    lemma_fold_carries(after);
    assert(before >= 26);
    let rounds = (before - 1) / 0xFFFF;
    assert(after - 1 == 0xFFFF * rounds + 0xFFFE);
    assert((after - 1) % 0xFFFF == 0xFFFE) by {
        vstd::arithmetic::div_mod::lemma_mod_multiples_vanish(rounds, 0xFFFE, 0xFFFF);
    }
}

} // verus!
