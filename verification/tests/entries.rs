use someip_sd_wire::entries::{
    EntryType, EventGroupEntry, EventGroupEntryRepr, NumberOfOptions, ReservedAndCounter,
    ServiceEntry, ServiceEntryRepr,
};
use someip_sd_wire::error::Error;

#[test]
fn test_service_entry() {
    let mut buffer = [0u8; 16];
    let mut entry = ServiceEntry::new_unchecked(&mut buffer[..]);

    entry.set_entry_type(EntryType::OfferService.as_u8());
    entry.set_service_id(0x1234);
    entry.set_instance_id(0x5678);
    entry.set_major_version(1);
    entry.set_minor_version(0x0000_0001);
    entry.set_ttl(0xFFFFFF);

    assert_eq!(entry.entry_type(), 0x01);
    assert_eq!(entry.service_id(), 0x1234);
    assert_eq!(entry.instance_id(), 0x5678);
    assert_eq!(entry.major_version(), 1);
    assert_eq!(entry.minor_version(), 1);
    assert_eq!(entry.ttl(), 0xFFFFFF);
}

#[test]
fn test_eventgroup_entry() {
    let mut buffer = [0u8; 16];
    let mut entry = EventGroupEntry::new_unchecked(&mut buffer[..]);

    entry.set_entry_type(EntryType::Subscribe.as_u8());
    entry.set_service_id(0x1234);
    entry.set_instance_id(0x5678);
    entry.set_major_version(1);
    entry.set_ttl(0xFFFFFF);
    entry.set_eventgroup_id(0xABCD);
    entry.set_reserved_and_counter(ReservedAndCounter::from_counter(5));

    assert_eq!(entry.entry_type(), 0x06);
    assert_eq!(entry.service_id(), 0x1234);
    assert_eq!(entry.instance_id(), 0x5678);
    assert_eq!(entry.major_version(), 1);
    assert_eq!(entry.ttl(), 0xFFFFFF);
    assert_eq!(entry.eventgroup_id(), 0xABCD);
    assert_eq!(entry.reserved_and_counter().counter(), 5);
}

#[test]
fn test_number_of_options() {
    let opts = NumberOfOptions::from_options(3, 7);
    assert_eq!(opts.options1(), 3);
    assert_eq!(opts.options2(), 7);
    assert_eq!(opts.as_u8(), 0x37);

    let mut opts = NumberOfOptions::new();
    opts.set_options1(15);
    opts.set_options2(8);
    assert_eq!(opts.options1(), 15);
    assert_eq!(opts.options2(), 8);
}

#[test]
fn test_reserved_and_counter() {
    let rc = ReservedAndCounter::from_counter(5);
    assert_eq!(rc.reserved(), 0x000);
    assert_eq!(rc.counter(), 5);

    let rc = ReservedAndCounter::from_fields(0xABC, 0xF);
    assert_eq!(rc.reserved(), 0xABC);
    assert_eq!(rc.counter(), 0xF);
    assert_eq!(rc.as_u16(), 0xABCF);

    let bytes = rc.to_be_bytes();
    let rc2 = ReservedAndCounter::from_be_bytes(bytes);
    assert_eq!(rc.as_u16(), rc2.as_u16());
}

#[test]
fn test_service_entry_type_validation() {
    // Valid service entry types
    let mut buffer = [0u8; 16];
    buffer[0] = 0x00; // FindService
    let entry = ServiceEntry::new_unchecked(&buffer[..]);
    assert!(entry.check_entry_type().is_ok());

    buffer[0] = 0x01; // OfferService
    let entry = ServiceEntry::new_unchecked(&buffer[..]);
    assert!(entry.check_entry_type().is_ok());

    // Invalid service entry types
    buffer[0] = 0x06; // Subscribe (eventgroup type)
    let entry = ServiceEntry::new_unchecked(&buffer[..]);
    assert_eq!(entry.check_entry_type(), Err(Error::InvalidEntryType(0x06)));

    buffer[0] = 0x07; // SubscribeAck (eventgroup type)
    let entry = ServiceEntry::new_unchecked(&buffer[..]);
    assert_eq!(entry.check_entry_type(), Err(Error::InvalidEntryType(0x07)));

    buffer[0] = 0xFF; // Unknown type
    let entry = ServiceEntry::new_unchecked(&buffer[..]);
    assert_eq!(entry.check_entry_type(), Err(Error::InvalidEntryType(0xFF)));

    buffer[0] = 0x42; // Random invalid type
    let entry = ServiceEntry::new_unchecked(&buffer[..]);
    assert_eq!(entry.check_entry_type(), Err(Error::InvalidEntryType(0x42)));
}

#[test]
fn test_eventgroup_entry_type_validation() {
    // Valid eventgroup entry types
    let mut buffer = [0u8; 16];
    buffer[0] = 0x06; // Subscribe
    let entry = EventGroupEntry::new_unchecked(&buffer[..]);
    assert!(entry.check_entry_type().is_ok());

    buffer[0] = 0x07; // SubscribeAck
    let entry = EventGroupEntry::new_unchecked(&buffer[..]);
    assert!(entry.check_entry_type().is_ok());

    // Invalid eventgroup entry types
    buffer[0] = 0x00; // FindService (service type)
    let entry = EventGroupEntry::new_unchecked(&buffer[..]);
    assert_eq!(entry.check_entry_type(), Err(Error::InvalidEntryType(0x00)));

    buffer[0] = 0x01; // OfferService (service type)
    let entry = EventGroupEntry::new_unchecked(&buffer[..]);
    assert_eq!(entry.check_entry_type(), Err(Error::InvalidEntryType(0x01)));

    buffer[0] = 0xFF; // Unknown type
    let entry = EventGroupEntry::new_unchecked(&buffer[..]);
    assert_eq!(entry.check_entry_type(), Err(Error::InvalidEntryType(0xFF)));

    buffer[0] = 0x99; // Random invalid type
    let entry = EventGroupEntry::new_unchecked(&buffer[..]);
    assert_eq!(entry.check_entry_type(), Err(Error::InvalidEntryType(0x99)));
}

#[test]
fn entry_type_check_over_every_byte() {
    let mut buffer = [0u8; 16];
    for value in 0..=255u8 {
        buffer[0] = value;
        let service = ServiceEntry::new_unchecked(&buffer[..]).check_entry_type();
        let eventgroup = EventGroupEntry::new_unchecked(&buffer[..]).check_entry_type();
        if value == 0x00 || value == 0x01 {
            assert_eq!(service, Ok(()));
        } else {
            assert_eq!(service, Err(Error::InvalidEntryType(value)));
        }
        if value == 0x06 || value == 0x07 {
            assert_eq!(eventgroup, Ok(()));
        } else {
            assert_eq!(eventgroup, Err(Error::InvalidEntryType(value)));
        }
    }
}

#[test]
fn entry_type_bytes() {
    assert_eq!(EntryType::from_u8(0x00), Some(EntryType::FindService));
    assert_eq!(EntryType::from_u8(0x01), Some(EntryType::OfferService));
    assert_eq!(EntryType::from_u8(0x06), Some(EntryType::Subscribe));
    assert_eq!(EntryType::from_u8(0x07), Some(EntryType::SubscribeAck));
    assert_eq!(EntryType::from_u8(0x02), None);
    assert_eq!(EntryType::from_u8(0x05), None);
    assert_eq!(EntryType::from_u8(0x08), None);
    assert_eq!(EntryType::FindService.as_u8(), 0x00);
    assert_eq!(EntryType::OfferService.as_u8(), 0x01);
    assert_eq!(EntryType::Subscribe.as_u8(), 0x06);
    assert_eq!(EntryType::SubscribeAck.as_u8(), 0x07);
    assert!(EntryType::FindService.is_service_entry());
    assert!(EntryType::OfferService.is_service_entry());
    assert!(!EntryType::Subscribe.is_service_entry());
    assert!(EntryType::Subscribe.is_eventgroup_entry());
    assert!(EntryType::SubscribeAck.is_eventgroup_entry());
    assert!(!EntryType::OfferService.is_eventgroup_entry());
}

#[test]
fn nibble_packing_over_every_pair() {
    for a in 0..=255u8 {
        for b in 0..=255u8 {
            let packed = NumberOfOptions::from_options(a, b);
            assert_eq!(packed.options1(), a & 0x0F);
            assert_eq!(packed.options2(), b & 0x0F);
        }
    }
}

#[test]
fn nibble_setters_keep_the_other_half() {
    let mut n = NumberOfOptions::from_u8(0xA5);
    assert_eq!(n.options1(), 0x0A);
    assert_eq!(n.options2(), 0x05);
    n.set_options1(0xF3);
    assert_eq!(n.as_u8(), 0x35);
    n.set_options2(0x7C);
    assert_eq!(n.as_u8(), 0x3C);
    assert_eq!(NumberOfOptions::new().as_u8(), 0);
}

#[test]
fn counter_setter_keeps_the_reserved_bits() {
    let mut rc = ReservedAndCounter::from_u16(0x1230);
    rc.set_counter(0xFA);
    assert_eq!(rc.as_u16(), 0x123A);
    assert_eq!(rc.reserved(), 0x123);
    assert_eq!(rc.counter(), 0x0A);
    assert_eq!(ReservedAndCounter::new().as_u16(), 0);
    assert_eq!(ReservedAndCounter::from_fields(0xFFFF, 0xFF).as_u16(), 0xFFFF);
    assert_eq!(ReservedAndCounter::from_fields(0x1ABC, 0x12).as_u16(), 0xABC2);
    assert_eq!(ReservedAndCounter::from_u16(0xABCF).to_be_bytes(), [0xAB, 0xCF]);
    assert_eq!(ReservedAndCounter::from_be_bytes([0x12, 0x34]).as_u16(), 0x1234);
}

#[test]
fn service_entry_bytes_are_big_endian() {
    let mut buffer = [0u8; 16];
    {
        let mut entry = ServiceEntry::new_unchecked(&mut buffer[..]);
        entry.set_entry_type(0x01);
        entry.set_index_first_option_run(2);
        entry.set_index_second_option_run(3);
        entry.set_number_of_options(NumberOfOptions::from_options(1, 2));
        entry.set_service_id(0x1234);
        entry.set_instance_id(0x5678);
        entry.set_major_version(0x9A);
        entry.set_ttl(0x00BCDEF0);
        entry.set_minor_version(0x11223344);
    }
    assert_eq!(
        buffer,
        [0x01, 2, 3, 0x12, 0x12, 0x34, 0x56, 0x78, 0x9A, 0xBC, 0xDE, 0xF0, 0x11, 0x22, 0x33, 0x44]
    );
    let entry = ServiceEntry::new_unchecked(&buffer[..]);
    assert_eq!(entry.index_first_option_run(), 2);
    assert_eq!(entry.index_second_option_run(), 3);
    assert_eq!(entry.number_of_options().as_u8(), 0x12);
    assert_eq!(entry.service_id(), 0x1234);
    assert_eq!(entry.instance_id(), 0x5678);
    assert_eq!(entry.ttl(), 0xBCDEF0);
    assert_eq!(entry.minor_version(), 0x11223344);
}

#[test]
fn eventgroup_entry_bytes_are_big_endian() {
    let mut buffer = [0u8; 16];
    {
        let mut entry = EventGroupEntry::new_unchecked(&mut buffer[..]);
        entry.set_entry_type(0x06);
        entry.set_index_first_option_run(1);
        entry.set_index_second_option_run(4);
        entry.set_number_of_options(NumberOfOptions::from_u8(0x21));
        entry.set_service_id(0xAABB);
        entry.set_instance_id(0xCCDD);
        entry.set_major_version(7);
        entry.set_ttl(0x010203);
        entry.set_reserved_and_counter(ReservedAndCounter::from_fields(0, 9));
        entry.set_eventgroup_id(0xBEEF);
    }
    assert_eq!(
        buffer,
        [0x06, 1, 4, 0x21, 0xAA, 0xBB, 0xCC, 0xDD, 7, 1, 2, 3, 0x00, 0x09, 0xBE, 0xEF]
    );
    let entry = EventGroupEntry::new_unchecked(&buffer[..]);
    assert_eq!(entry.index_first_option_run(), 1);
    assert_eq!(entry.index_second_option_run(), 4);
    assert_eq!(entry.number_of_options().options1(), 2);
    assert_eq!(entry.reserved_and_counter().as_u16(), 9);
    assert_eq!(entry.eventgroup_id(), 0xBEEF);
    assert_eq!(entry.ttl(), 0x010203);
}

#[test]
fn ttl_keeps_its_low_twenty_four_bits() {
    let mut buffer = [0xEEu8; 16];
    let mut entry = ServiceEntry::new_unchecked(&mut buffer[..]);
    entry.set_ttl(0xAB123456);
    assert_eq!(entry.ttl(), 0x123456);
    assert_eq!(entry.major_version(), 0xEE);
    assert_eq!(entry.minor_version(), 0xEEEEEEEE);
    entry.set_ttl(0);
    assert_eq!(entry.ttl(), 0);
}

#[test]
fn entry_length_checks() {
    let short = [0u8; 15];
    let exact = [0u8; 16];
    let long = [0u8; 17];
    assert_eq!(ServiceEntry::new_unchecked(&short[..]).check_len(), Err(Error::BufferTooShort));
    assert_eq!(ServiceEntry::new_unchecked(&exact[..]).check_len(), Ok(()));
    assert_eq!(ServiceEntry::new_unchecked(&long[..]).check_len(), Ok(()));
    assert!(ServiceEntry::new_checked(&short[..]).is_err());
    assert!(ServiceEntry::new_checked(&exact[..]).is_ok());
    assert_eq!(EventGroupEntry::new_unchecked(&short[..]).check_len(), Err(Error::BufferTooShort));
    assert_eq!(EventGroupEntry::new_unchecked(&exact[..]).check_len(), Ok(()));
    assert!(EventGroupEntry::new_checked(&short[..]).is_err());
    assert!(EventGroupEntry::new_checked(&long[..]).is_ok());
    assert_eq!(ServiceEntry::<&[u8]>::LENGTH, 16);
    assert_eq!(EventGroupEntry::<&[u8]>::LENGTH, 16);
    assert_eq!(ServiceEntryRepr::buffer_len(), 16);
    assert_eq!(EventGroupEntryRepr::buffer_len(), 16);
}

#[test]
fn service_entry_repr_round_trip() {
    let repr = ServiceEntryRepr {
        entry_type: EntryType::OfferService,
        index_first_option_run: 1,
        index_second_option_run: 2,
        number_of_options: NumberOfOptions::from_options(3, 4),
        service_id: 0x1234,
        instance_id: 0x0001,
        major_version: 2,
        ttl: 0xFFFFFF,
        minor_version: 0xDEADBEEF,
    };
    let mut buffer = [0u8; 16];
    let mut entry = ServiceEntry::new_unchecked(&mut buffer[..]);
    repr.emit(&mut entry);
    assert_eq!(ServiceEntryRepr::parse(&entry), Ok(repr));
    assert_eq!(
        buffer,
        [0x01, 1, 2, 0x34, 0x12, 0x34, 0x00, 0x01, 2, 0xFF, 0xFF, 0xFF, 0xDE, 0xAD, 0xBE, 0xEF]
    );
}

#[test]
fn eventgroup_entry_repr_round_trip() {
    let repr = EventGroupEntryRepr {
        entry_type: EntryType::SubscribeAck,
        index_first_option_run: 0,
        index_second_option_run: 0,
        number_of_options: NumberOfOptions::from_options(1, 0),
        service_id: 0x4321,
        instance_id: 0xFFFF,
        major_version: 1,
        ttl: 3,
        reserved_and_counter: ReservedAndCounter::from_counter(2),
        eventgroup_id: 0x0102,
    };
    let mut buffer = [0u8; 16];
    let mut entry = EventGroupEntry::new_unchecked(&mut buffer[..]);
    repr.emit(&mut entry);
    assert_eq!(EventGroupEntryRepr::parse(&entry), Ok(repr));
    assert_eq!(
        buffer,
        [0x07, 0, 0, 0x10, 0x43, 0x21, 0xFF, 0xFF, 1, 0, 0, 3, 0x00, 0x02, 0x01, 0x02]
    );
}

#[test]
fn entry_reprs_reject_the_other_kind() {
    let mut buffer = [0u8; 16];
    buffer[0] = 0x06;
    let entry = ServiceEntry::new_unchecked(&buffer[..]);
    assert_eq!(ServiceEntryRepr::parse(&entry), Err(Error::InvalidEntryType(0x06)));
    buffer[0] = 0x01;
    let entry = EventGroupEntry::new_unchecked(&buffer[..]);
    assert_eq!(EventGroupEntryRepr::parse(&entry), Err(Error::InvalidEntryType(0x01)));
    buffer[0] = 0x80;
    let entry = EventGroupEntry::new_unchecked(&buffer[..]);
    assert_eq!(EventGroupEntryRepr::parse(&entry), Err(Error::InvalidEntryType(0x80)));
}

#[test]
fn entry_views_over_a_vec() {
    let mut entry = ServiceEntry::new_unchecked(vec![0u8; 16]);
    entry.set_service_id(0xFFEE);
    assert_eq!(entry.service_id(), 0xFFEE);
}
