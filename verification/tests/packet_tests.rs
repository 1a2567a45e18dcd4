use pnet::packet::tcp::{ipv4_checksum, ipv6_checksum, MutableTcpPacket, Tcp};
use rust_scanner::{
    build_packet, build_rst_packet, checksum_is_valid, ConfigError, IpAddress, IpConfig, PortConfig,
};

const V4_SOURCE: u32 = 0xC0A8_0001; // 192.168.0.1
const V4_TARGET: u32 = 0x0A00_0005; // 10.0.0.5
const V6_SOURCE: u128 = 0xfe80_0000_0000_0000_0000_0000_0000_0001; // fe80::1
const V6_TARGET: u128 = 0x2001_0db8_0000_0000_0000_0000_0000_0005; // 2001:db8::5

fn v4_pair() -> IpConfig {
    IpConfig { target: IpAddress::V4(V4_TARGET), source: IpAddress::V4(V4_SOURCE) }
}

fn v6_pair() -> IpConfig {
    IpConfig { target: IpAddress::V6(V6_TARGET), source: IpAddress::V6(V6_SOURCE) }
}

/// Builds the segment the way the packet crate does it alone.
fn built_by_pnet(ip: &IpConfig, ports: &PortConfig, flags: u8) -> [u8; 20] {
    let fields = Tcp {
        source: ports.source,
        destination: ports.target,
        sequence: 0,
        acknowledgement: 0,
        data_offset: 5,
        reserved: 0,
        flags,
        window: 0,
        checksum: 0,
        urgent_ptr: 0,
        options: Vec::new(),
        payload: Vec::new(),
    };
    let mut buffer = [0u8; 20];
    {
        let mut packet = MutableTcpPacket::new(&mut buffer).unwrap();
        packet.populate(&fields);
        let checksum = match (ip.source, ip.target) {
            (IpAddress::V4(source), IpAddress::V4(target)) => {
                ipv4_checksum(&packet.to_immutable(), &source.into(), &target.into())
            }
            (IpAddress::V6(source), IpAddress::V6(target)) => {
                ipv6_checksum(&packet.to_immutable(), &source.into(), &target.into())
            }
            _ => panic!("two families"),
        };
        packet.set_checksum(checksum);
    }
    buffer
}

#[test]
fn syn_over_ipv4_matches_its_reference_vector() {
    let mut buffer = [0u8; 20];
    let ports = PortConfig { target: 443, source: 40000 };
    assert_eq!(build_packet(&mut buffer, &v4_pair(), &ports), Ok(()));
    assert_eq!(
        buffer,
        [156, 64, 1, 187, 0, 0, 0, 0, 0, 0, 0, 0, 80, 2, 0, 0, 0x47, 0x39, 0, 0]
    );
}

#[test]
fn syn_over_ipv6_matches_its_reference_vector() {
    let mut buffer = [0u8; 20];
    let ports = PortConfig { target: 80, source: 1024 };
    assert_eq!(build_packet(&mut buffer, &v6_pair(), &ports), Ok(()));
    assert_eq!(
        buffer,
        [4, 0, 0, 80, 0, 0, 0, 0, 0, 0, 0, 0, 80, 2, 0, 0, 0x7f, 0x53, 0, 0]
    );
}

#[test]
fn syn_between_long_ipv6_addresses_matches_its_reference_vector() {
    let ip = IpConfig {
        target: IpAddress::V6(0x2001_0db8_0000_0000_0000_ff00_0042_8329),
        source: IpAddress::V6(0x2001_0db8_85a3_0000_0000_8a2e_0370_7334),
    };
    let mut buffer = [0u8; 20];
    let ports = PortConfig { target: 65535, source: 65534 };
    assert_eq!(build_packet(&mut buffer, &ip, &ports), Ok(()));
    assert_eq!(
        buffer,
        [255, 254, 255, 255, 0, 0, 0, 0, 0, 0, 0, 0, 80, 2, 0, 0, 0x4b, 0x8f, 0, 0]
    );
}

#[test]
fn rst_over_ipv4_matches_its_reference_vector() {
    let mut buffer = [0u8; 20];
    let ports = PortConfig { target: 443, source: 40000 };
    assert_eq!(build_rst_packet(&mut buffer, &v4_pair(), &ports), Ok(()));
    assert_eq!(
        buffer,
        [156, 64, 1, 187, 0, 0, 0, 0, 0, 0, 0, 0, 80, 4, 0, 0, 0x47, 0x37, 0, 0]
    );
}

#[test]
fn all_zero_and_all_one_addresses_match_their_reference_vectors() {
    let zero = IpConfig { target: IpAddress::V4(0), source: IpAddress::V4(0) };
    let mut buffer = [0xAAu8; 20];
    assert_eq!(build_packet(&mut buffer, &zero, &PortConfig { target: 0, source: 0 }), Ok(()));
    assert_eq!(buffer, [0, 0, 0, 0, 0, 0, 0, 0, 0, 0, 0, 0, 80, 2, 0, 0, 0xaf, 0xe3, 0, 0]);

    let ones = IpConfig { target: IpAddress::V4(u32::MAX), source: IpAddress::V4(u32::MAX) };
    let ports = PortConfig { target: 65535, source: 65535 };
    assert_eq!(build_rst_packet(&mut buffer, &ones, &ports), Ok(()));
    assert_eq!(
        buffer,
        [255, 255, 255, 255, 0, 0, 0, 0, 0, 0, 0, 0, 80, 4, 0, 0, 0xaf, 0xe1, 0, 0]
    );
}

#[test]
fn what_was_in_the_buffer_does_not_matter() {
    let ports = PortConfig { target: 443, source: 40000 };
    let mut clean = [0u8; 20];
    let mut dirty = [0xFFu8; 20];
    assert_eq!(build_packet(&mut clean, &v4_pair(), &ports), Ok(()));
    assert_eq!(build_packet(&mut dirty, &v4_pair(), &ports), Ok(()));
    assert_eq!(clean, dirty);
}

#[test]
fn mixed_families_are_refused_and_the_buffer_is_left_alone() {
    let ports = PortConfig { target: 443, source: 40000 };
    let mixed = IpConfig { target: IpAddress::V4(V4_TARGET), source: IpAddress::V6(V6_SOURCE) };
    let mut buffer = [7u8; 20];
    assert_eq!(build_packet(&mut buffer, &mixed, &ports), Err(ConfigError::FamilyMismatch));
    assert_eq!(buffer, [7u8; 20]);

    let mixed = IpConfig { target: IpAddress::V6(V6_TARGET), source: IpAddress::V4(V4_SOURCE) };
    assert_eq!(build_rst_packet(&mut buffer, &mixed, &ports), Err(ConfigError::FamilyMismatch));
    assert_eq!(buffer, [7u8; 20]);
    assert!(!mixed.is_well_formed());
    assert!(v4_pair().is_well_formed());
    assert!(v6_pair().is_well_formed());
}

#[test]
fn built_segments_are_those_of_the_packet_crate() {
    let pairs = [
        v4_pair(),
        v6_pair(),
        IpConfig { target: IpAddress::V4(0), source: IpAddress::V4(u32::MAX) },
        IpConfig { target: IpAddress::V6(u128::MAX), source: IpAddress::V6(0) },
        IpConfig { target: IpAddress::V4(0xFFFF_0000), source: IpAddress::V4(0x0000_FFFF) },
    ];
    let ports = [(0u16, 0u16), (443, 40000), (80, 1024), (65535, 65534), (22, 65535), (255, 256)];
    for ip in pairs.iter() {
        for (target, source) in ports {
            let ports = PortConfig { target, source };
            let mut buffer = [0u8; 20];
            assert_eq!(build_packet(&mut buffer, ip, &ports), Ok(()));
            assert_eq!(buffer, built_by_pnet(ip, &ports, 0b0000_0010));
            assert_eq!(build_rst_packet(&mut buffer, ip, &ports), Ok(()));
            assert_eq!(buffer, built_by_pnet(ip, &ports, 0b0000_0100));
        }
    }
}

#[test]
fn built_segments_validate() {
    let pairs = [
        v4_pair(),
        v6_pair(),
        IpConfig { target: IpAddress::V4(0), source: IpAddress::V4(0) },
        IpConfig { target: IpAddress::V6(u128::MAX), source: IpAddress::V6(u128::MAX) },
    ];
    for ip in pairs.iter() {
        for target in [0u16, 1, 22, 443, 8080, 65535] {
            for source in [1024u16, 40000, 65534] {
                let ports = PortConfig { target, source };
                let mut buffer = [0u8; 20];
                assert_eq!(build_packet(&mut buffer, ip, &ports), Ok(()));
                assert!(checksum_is_valid(ip, &buffer));
                assert_eq!(build_rst_packet(&mut buffer, ip, &ports), Ok(()));
                assert!(checksum_is_valid(ip, &buffer));
            }
        }
    }
}

#[test]
fn a_changed_segment_does_not_validate() {
    let ports = PortConfig { target: 443, source: 40000 };
    let mut buffer = [0u8; 20];
    assert_eq!(build_packet(&mut buffer, &v4_pair(), &ports), Ok(()));
    assert!(checksum_is_valid(&v4_pair(), &buffer));
    for index in 0..20 {
        let mut changed = buffer;
        changed[index] ^= 0x10;
        assert!(!checksum_is_valid(&v4_pair(), &changed), "byte {index}");
    }
    let other = IpConfig { target: IpAddress::V4(V4_TARGET + 1), source: IpAddress::V4(V4_SOURCE) };
    assert!(!checksum_is_valid(&other, &buffer));
    assert!(!checksum_is_valid(&v6_pair(), &buffer));
    assert!(!checksum_is_valid(&v4_pair(), &[0u8; 20]));
}

#[test]
fn a_reference_segment_validates_without_being_built() {
    let segment = [156, 64, 1, 187, 0, 0, 0, 0, 0, 0, 0, 0, 80, 2, 0, 0, 0x47, 0x39, 0, 0];
    assert!(checksum_is_valid(&v4_pair(), &segment));
    let segment = [4, 0, 0, 80, 0, 0, 0, 0, 0, 0, 0, 0, 80, 2, 0, 0, 0x7f, 0x53, 0, 0];
    assert!(checksum_is_valid(&v6_pair(), &segment));
}

#[test]
fn only_a_segment_of_twenty_bytes_validates() {
    let segment = [156, 64, 1, 187, 0, 0, 0, 0, 0, 0, 0, 0, 80, 2, 0, 0, 0x47, 0x39, 0, 0];
    assert!(checksum_is_valid(&v4_pair(), &segment));
    assert!(!checksum_is_valid(&v4_pair(), &segment[..19]));
    assert!(!checksum_is_valid(&v4_pair(), &[]));
    let mut longer = segment.to_vec();
    longer.extend_from_slice(&[0, 0]);
    assert!(!checksum_is_valid(&v4_pair(), &longer));
}
