use someip_sd_wire::error::Error;
use someip_sd_wire::options::{
    DiscardableFlag, IPv4EndpointOption, IPv4EndpointOptionRepr, IPv6EndpointOption,
    IPv6EndpointOptionRepr, LoadBalancingOption, LoadBalancingOptionRepr, OptionHeader,
    OptionType, TransportProtocol,
};

#[test]
fn test_option_header() {
    let mut buffer = [0u8; 4];
    let mut header = OptionHeader::new_unchecked(&mut buffer[..]);

    header.set_length(8);
    header.set_option_type(OptionType::Configuration.as_u8());
    header.set_discardable_flag(DiscardableFlag::from_bool(true));

    assert_eq!(header.length(), 8);
    assert_eq!(header.option_type(), 0x01);
    assert!(header.discardable_flag().is_discardable());
}

#[test]
fn test_ipv4_endpoint_option() {
    let mut buffer = [0u8; 12];
    let mut option = IPv4EndpointOption::new_unchecked(&mut buffer[..]);

    option.set_ipv4_address([192, 168, 1, 1]);
    option.set_transport_protocol(TransportProtocol::UDP.as_u8());
    option.set_port(30490);

    assert_eq!(option.ipv4_address(), [192, 168, 1, 1]);
    assert_eq!(option.transport_protocol(), 0x11);
    assert_eq!(option.port(), 30490);
}

#[test]
fn test_ipv6_endpoint_option() {
    let mut buffer = [0u8; 24];
    let mut option = IPv6EndpointOption::new_unchecked(&mut buffer[..]);

    let addr = [0xfe, 0x80, 0, 0, 0, 0, 0, 0, 0, 0, 0, 0, 0, 0, 0, 1];
    option.set_ipv6_address(addr);
    option.set_transport_protocol(TransportProtocol::TCP.as_u8());
    option.set_port(30490);

    assert_eq!(option.ipv6_address(), addr);
    assert_eq!(option.transport_protocol(), 0x06);
    assert_eq!(option.port(), 30490);
}

#[test]
fn test_load_balancing_option() {
    let mut buffer = [0u8; 8];
    let mut option = LoadBalancingOption::new_unchecked(&mut buffer[..]);

    option.set_priority(100);
    option.set_weight(50);

    assert_eq!(option.priority(), 100);
    assert_eq!(option.weight(), 50);
}

#[test]
fn test_discardable_flag() {
    let mut flag = DiscardableFlag::new();
    assert!(!flag.is_discardable());
    assert_eq!(flag.reserved(), 0x00);

    flag.set_discardable(true);
    assert!(flag.is_discardable());
    assert_eq!(flag.as_u8(), 0x80);

    let flag2 = DiscardableFlag::from_bool(true);
    assert!(flag2.is_discardable());
}

#[test]
fn test_option_header_type_validation() {
    // Valid option types
    let mut buffer = [0u8; 4];
    buffer[2] = 0x01; // Configuration
    let header = OptionHeader::new_unchecked(&buffer[..]);
    assert!(header.check_option_type().is_ok());

    buffer[2] = 0x04; // IPv4Endpoint
    let header = OptionHeader::new_unchecked(&buffer[..]);
    assert!(header.check_option_type().is_ok());

    buffer[2] = 0x24; // IPv4SdEndpoint
    let header = OptionHeader::new_unchecked(&buffer[..]);
    assert!(header.check_option_type().is_ok());

    // Invalid option types
    buffer[2] = 0xFF; // Unknown type
    let header = OptionHeader::new_unchecked(&buffer[..]);
    assert_eq!(header.check_option_type(), Err(Error::InvalidOptionType(0xFF)));

    buffer[2] = 0x03; // Not a valid option type
    let header = OptionHeader::new_unchecked(&buffer[..]);
    assert_eq!(header.check_option_type(), Err(Error::InvalidOptionType(0x03)));

    buffer[2] = 0x99; // Random invalid type
    let header = OptionHeader::new_unchecked(&buffer[..]);
    assert_eq!(header.check_option_type(), Err(Error::InvalidOptionType(0x99)));
}

#[test]
fn test_ipv4_endpoint_protocol_validation() {
    // Valid protocols
    let mut buffer = [0u8; 12];
    buffer[9] = 0x06; // TCP
    let option = IPv4EndpointOption::new_unchecked(&buffer[..]);
    assert!(option.check_protocol().is_ok());

    buffer[9] = 0x11; // UDP
    let option = IPv4EndpointOption::new_unchecked(&buffer[..]);
    assert!(option.check_protocol().is_ok());

    // Invalid protocols
    buffer[9] = 0x01; // ICMP (not supported)
    let option = IPv4EndpointOption::new_unchecked(&buffer[..]);
    assert_eq!(option.check_protocol(), Err(Error::InvalidProtocol(0x01)));

    buffer[9] = 0xFF; // Unknown protocol
    let option = IPv4EndpointOption::new_unchecked(&buffer[..]);
    assert_eq!(option.check_protocol(), Err(Error::InvalidProtocol(0xFF)));

    buffer[9] = 0x00; // Reserved
    let option = IPv4EndpointOption::new_unchecked(&buffer[..]);
    assert_eq!(option.check_protocol(), Err(Error::InvalidProtocol(0x00)));
}

#[test]
fn test_ipv6_endpoint_protocol_validation() {
    // Valid protocols
    let mut buffer = [0u8; 24];
    buffer[21] = 0x06; // TCP
    let option = IPv6EndpointOption::new_unchecked(&buffer[..]);
    assert!(option.check_protocol().is_ok());

    buffer[21] = 0x11; // UDP
    let option = IPv6EndpointOption::new_unchecked(&buffer[..]);
    assert!(option.check_protocol().is_ok());

    // Invalid protocols
    buffer[21] = 0x02; // IGMP (not supported)
    let option = IPv6EndpointOption::new_unchecked(&buffer[..]);
    assert_eq!(option.check_protocol(), Err(Error::InvalidProtocol(0x02)));

    buffer[21] = 0xFF; // Unknown protocol
    let option = IPv6EndpointOption::new_unchecked(&buffer[..]);
    assert_eq!(option.check_protocol(), Err(Error::InvalidProtocol(0xFF)));

    buffer[21] = 0x3A; // IPv6-ICMP (not supported in this context)
    let option = IPv6EndpointOption::new_unchecked(&buffer[..]);
    assert_eq!(option.check_protocol(), Err(Error::InvalidProtocol(0x3A)));
}

#[test]
fn parses_an_ipv4_endpoint_from_wire() {
    let wire = [0x00, 0x09, 0x04, 0x00, 192, 168, 1, 1, 0, 0x11, 0x77, 0x1A];
    let header = OptionHeader::new_checked(&wire[..]).unwrap();
    assert_eq!(header.length(), 9);
    assert_eq!(header.check_option_type(), Ok(()));
    assert_eq!(OptionType::from_u8(header.option_type()), Some(OptionType::IPv4Endpoint));
    assert!(!header.discardable_flag().is_discardable());

    let option = IPv4EndpointOption::new_checked(&wire[..]).unwrap();
    assert_eq!(option.header().option_type(), 0x04);
    let repr = IPv4EndpointOptionRepr::parse(&option).unwrap();
    assert_eq!(repr.ipv4_address, [192, 168, 1, 1]);
    assert_eq!(repr.protocol, TransportProtocol::UDP);
    assert_eq!(repr.port, 30490);
}

#[test]
fn option_type_bytes() {
    let table = [
        (0x01u8, OptionType::Configuration),
        (0x02, OptionType::LoadBalancing),
        (0x04, OptionType::IPv4Endpoint),
        (0x06, OptionType::IPv6Endpoint),
        (0x14, OptionType::IPv4Multicast),
        (0x16, OptionType::IPv6Multicast),
        (0x24, OptionType::IPv4SdEndpoint),
        (0x26, OptionType::IPv6SdEndpoint),
    ];
    for value in 0..=255u8 {
        let expected = table.iter().find(|(b, _)| *b == value).map(|(_, t)| *t);
        assert_eq!(OptionType::from_u8(value), expected);
        let mut buffer = [0u8; 4];
        buffer[2] = value;
        let checked = OptionHeader::new_unchecked(&buffer[..]).check_option_type();
        match expected {
            Some(t) => {
                assert_eq!(t.as_u8(), value);
                assert_eq!(checked, Ok(()));
            }
            None => assert_eq!(checked, Err(Error::InvalidOptionType(value))),
        }
    }
}

#[test]
fn protocol_bytes() {
    for value in 0..=255u8 {
        let expected = match value {
            0x06 => Some(TransportProtocol::TCP),
            0x11 => Some(TransportProtocol::UDP),
            _ => None,
        };
        assert_eq!(TransportProtocol::from_u8(value), expected);
    }
    assert_eq!(TransportProtocol::TCP.as_u8(), 0x06);
    assert_eq!(TransportProtocol::UDP.as_u8(), 0x11);
}

#[test]
fn discardable_bit_and_reserved_bits_are_apart() {
    let mut flag = DiscardableFlag::from_u8(0x55);
    assert!(!flag.is_discardable());
    assert_eq!(flag.reserved(), 0x55);
    flag.set_discardable(true);
    assert_eq!(flag.as_u8(), 0xD5);
    assert_eq!(flag.reserved(), 0x55);
    flag.set_discardable(false);
    assert_eq!(flag.as_u8(), 0x55);
    assert_eq!(DiscardableFlag::from_bool(false).as_u8(), 0x00);
    assert_eq!(DiscardableFlag::from_bool(true).as_u8(), 0x80);
    assert_eq!(DiscardableFlag::from_u8(0xFF).reserved(), 0x7F);
}

#[test]
fn option_header_bytes() {
    let mut buffer = [0xEEu8; 6];
    {
        let mut header = OptionHeader::new_unchecked(&mut buffer[..]);
        header.set_length(0x0102);
        header.set_option_type(0x14);
        header.set_discardable_flag(DiscardableFlag::from_bool(true));
    }
    assert_eq!(buffer, [0x01, 0x02, 0x14, 0x80, 0xEE, 0xEE]);
    let header = OptionHeader::new_unchecked(&buffer[..]);
    assert_eq!(header.length(), 0x0102);
    assert_eq!(header.discardable_flag().as_u8(), 0x80);
}

#[test]
fn option_length_checks() {
    let buffer = [0u8; 24];
    assert_eq!(OptionHeader::new_unchecked(&buffer[..3]).check_len(), Err(Error::BufferTooShort));
    assert_eq!(OptionHeader::new_unchecked(&buffer[..4]).check_len(), Ok(()));
    assert!(OptionHeader::new_checked(&buffer[..3]).is_err());
    assert_eq!(
        IPv4EndpointOption::new_unchecked(&buffer[..11]).check_len(),
        Err(Error::BufferTooShort)
    );
    assert_eq!(IPv4EndpointOption::new_unchecked(&buffer[..12]).check_len(), Ok(()));
    assert!(IPv4EndpointOption::new_checked(&buffer[..11]).is_err());
    assert_eq!(
        IPv6EndpointOption::new_unchecked(&buffer[..23]).check_len(),
        Err(Error::BufferTooShort)
    );
    assert_eq!(IPv6EndpointOption::new_unchecked(&buffer[..24]).check_len(), Ok(()));
    assert!(IPv6EndpointOption::new_checked(&buffer[..24]).is_ok());
    assert_eq!(
        LoadBalancingOption::new_unchecked(&buffer[..7]).check_len(),
        Err(Error::BufferTooShort)
    );
    assert_eq!(LoadBalancingOption::new_unchecked(&buffer[..8]).check_len(), Ok(()));
    assert!(LoadBalancingOption::new_checked(&buffer[..7]).is_err());
    assert_eq!(OptionHeader::<&[u8]>::LENGTH, 4);
    assert_eq!(IPv4EndpointOption::<&[u8]>::LENGTH, 12);
    assert_eq!(IPv6EndpointOption::<&[u8]>::LENGTH, 24);
    assert_eq!(LoadBalancingOption::<&[u8]>::LENGTH, 8);
}

#[test]
fn ipv4_endpoint_repr_emits_header_and_payload() {
    let repr = IPv4EndpointOptionRepr {
        ipv4_address: [10, 0, 0, 7],
        protocol: TransportProtocol::TCP,
        port: 0x1F90,
    };
    let mut buffer = [0xEEu8; 14];
    assert_eq!(repr.emit(&mut buffer), 12);
    assert_eq!(IPv4EndpointOptionRepr::buffer_len(), 12);
    assert_eq!(
        buffer,
        [0x00, 0x09, 0x04, 0xEE, 10, 0, 0, 7, 0xEE, 0x06, 0x1F, 0x90, 0xEE, 0xEE]
    );
    let option = IPv4EndpointOption::new_unchecked(&buffer[..]);
    assert_eq!(IPv4EndpointOptionRepr::parse(&option), Ok(repr));
    assert_eq!(option.header().length(), 9);
}

#[test]
fn ipv6_endpoint_repr_emits_header_and_payload() {
    let address = [0x20, 0x01, 0x0d, 0xb8, 0, 0, 0, 0, 0, 0, 0, 0, 0, 0, 0, 0x42];
    let repr = IPv6EndpointOptionRepr {
        ipv6_address: address,
        protocol: TransportProtocol::UDP,
        port: 30490,
    };
    let mut buffer = [0xEEu8; 24];
    assert_eq!(repr.emit(&mut buffer), 24);
    assert_eq!(IPv6EndpointOptionRepr::buffer_len(), 24);
    assert_eq!(&buffer[..4], &[0x00, 0x15, 0x06, 0xEE]);
    assert_eq!(&buffer[4..20], &address);
    assert_eq!(&buffer[20..], &[0xEE, 0x11, 0x77, 0x1A]);
    let option = IPv6EndpointOption::new_unchecked(&buffer[..]);
    assert_eq!(IPv6EndpointOptionRepr::parse(&option), Ok(repr));
    assert_eq!(option.header().option_type(), 0x06);
}

#[test]
fn endpoint_reprs_reject_other_protocols() {
    let mut buffer = [0u8; 24];
    buffer[9] = 0x01;
    let option = IPv4EndpointOption::new_unchecked(&buffer[..]);
    assert_eq!(IPv4EndpointOptionRepr::parse(&option), Err(Error::InvalidProtocol(0x01)));
    buffer[21] = 0x3A;
    let option = IPv6EndpointOption::new_unchecked(&buffer[..]);
    assert_eq!(IPv6EndpointOptionRepr::parse(&option), Err(Error::InvalidProtocol(0x3A)));
}

#[test]
fn load_balancing_repr_emits_header_and_payload() {
    let repr = LoadBalancingOptionRepr { priority: 0x0102, weight: 0x0304 };
    let mut buffer = [0xEEu8; 9];
    assert_eq!(repr.emit(&mut buffer), 8);
    assert_eq!(LoadBalancingOptionRepr::buffer_len(), 8);
    assert_eq!(buffer, [0x00, 0x05, 0x02, 0xEE, 0x01, 0x02, 0x03, 0x04, 0xEE]);
    let option = LoadBalancingOption::new_unchecked(&buffer[..]);
    assert_eq!(LoadBalancingOptionRepr::parse(&option), repr);
    assert_eq!(option.header().length(), 5);
}

#[test]
fn load_balancing_repr_returns_the_bytes_written() {
    let repr = LoadBalancingOptionRepr { priority: 100, weight: 50 };
    let mut buffer = [0xEEu8; 9];
    let n = repr.emit(&mut buffer);
    assert_eq!(n, 8);
    assert_eq!(buffer[2], 0x02);
    assert_eq!(&buffer[4..8], &[0x00, 0x64, 0x00, 0x32]);
    assert_eq!(buffer[8], 0xEE);

    // a buffer of exactly the option's size: what was written can be sent
    let mut exact = [0xEEu8; 8];
    let n = repr.emit(&mut exact);
    assert_eq!(n, exact.len());
    assert_eq!(&exact[..n], &[0x00, 0x05, 0x02, 0xEE, 0x00, 0x64, 0x00, 0x32]);
    assert_eq!(n, LoadBalancingOption::<&[u8]>::LENGTH);
}

#[test]
fn every_option_repr_returns_its_size_on_the_wire() {
    let v4 = IPv4EndpointOptionRepr {
        ipv4_address: [127, 0, 0, 1],
        protocol: TransportProtocol::UDP,
        port: 1,
    };
    let mut exact = [0u8; 12];
    assert_eq!(v4.emit(&mut exact), exact.len());
    assert_eq!(IPv4EndpointOptionRepr::buffer_len(), IPv4EndpointOption::<&[u8]>::LENGTH);
    let v6 = IPv6EndpointOptionRepr {
        ipv6_address: [0; 16],
        protocol: TransportProtocol::TCP,
        port: 2,
    };
    let mut exact = [0u8; 24];
    assert_eq!(v6.emit(&mut exact), exact.len());
    assert_eq!(IPv6EndpointOptionRepr::buffer_len(), IPv6EndpointOption::<&[u8]>::LENGTH);
    assert_eq!(LoadBalancingOptionRepr::buffer_len(), LoadBalancingOption::<&[u8]>::LENGTH);
}
