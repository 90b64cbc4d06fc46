use someip_sd_wire::error::Error;
use someip_sd_wire::packet::Packet;
use someip_sd_wire::repr::Repr;

#[test]
fn test_repr_new() {
    let entries = [0u8; 16];
    let options = [0u8; 8];

    let repr = Repr::new(0x80, &entries, &options);

    assert_eq!(repr.flags, 0x80);
    assert_eq!(repr.reserved, 0);
    assert_eq!(repr.entries.len(), 16);
    assert_eq!(repr.options.len(), 8);
}

#[test]
fn test_repr_parse_emit_roundtrip() {
    let entries_data = [1, 2, 3, 4, 5, 6, 7, 8];
    let options_data = [9, 10, 11, 12];
    let source = Repr::new(0xC0, &entries_data, &options_data);

    // 12 bytes of lengths and flags, 8 of entries, 4 of options
    let mut buffer = [0u8; 12 + 8 + 4];
    let mut packet = Packet::new_unchecked(&mut buffer[..]);
    source.emit(&mut packet);

    let parsed = Repr::parse(&packet).unwrap();

    assert_eq!(parsed.flags, source.flags);
    assert_eq!(parsed.reserved, 0);
    assert_eq!(parsed.entries, source.entries);
    assert_eq!(parsed.options, source.options);
}

#[test]
fn test_repr_buffer_len() {
    let entries = [0u8; 32];
    let options = [0u8; 16];

    let repr = Repr::new(0x00, &entries, &options);

    assert_eq!(repr.buffer_len(), 12 + 32 + 16);
}

#[test]
fn test_repr_empty_entries_and_options() {
    let entries: &[u8] = &[];
    let options: &[u8] = &[];

    let repr = Repr::new(0x00, entries, options);

    let mut buffer = [0u8; 12];
    let mut packet = Packet::new_unchecked(&mut buffer[..]);
    repr.emit(&mut packet);

    assert_eq!(packet.entries_length(), 0);
    assert_eq!(packet.options_length(), 0);
}

#[test]
fn emit_writes_the_exact_wire_image() {
    let entries = [0xE1, 0xE2, 0xE3];
    let options = [0xA1];
    let repr = Repr { flags: 0x80, reserved: 0x000102, entries: &entries, options: &options };
    assert_eq!(repr.buffer_len(), 16);
    let mut buffer = [0xEEu8; 18];
    {
        let mut packet = Packet::new_unchecked(&mut buffer[..]);
        repr.emit(&mut packet);
    }
    assert_eq!(
        buffer,
        [0x80, 0, 1, 2, 0, 0, 0, 3, 0xE1, 0xE2, 0xE3, 0, 0, 0, 1, 0xA1, 0xEE, 0xEE]
    );
    let packet = Packet::new_checked(&buffer[..16]).unwrap();
    assert_eq!(Repr::parse(&packet), Ok(repr));
}

#[test]
fn parse_of_a_built_buffer_finds_the_arrays() {
    for entries_len in [0usize, 1, 16, 300] {
        for options_len in [0usize, 5, 260] {
            let entries: Vec<u8> = (0..entries_len).map(|i| (i % 251) as u8).collect();
            let options: Vec<u8> = (0..options_len).map(|i| (i % 13) as u8 + 100).collect();
            let mut wire = vec![0x40, 0, 0, 0];
            wire.extend_from_slice(&(entries_len as u32).to_be_bytes());
            wire.extend_from_slice(&entries);
            wire.extend_from_slice(&(options_len as u32).to_be_bytes());
            wire.extend_from_slice(&options);
            assert_eq!(wire.len(), 8 + entries_len + 4 + options_len);
            let packet = Packet::new_checked(&wire[..]).unwrap();
            assert_eq!(packet.entries_array(), &entries[..]);
            assert_eq!(packet.options_array(), &options[..]);
            let repr = Repr::parse(&packet).unwrap();
            assert_eq!(repr.flags, 0x40);
            assert_eq!(repr.entries, &entries[..]);
            assert_eq!(repr.options, &options[..]);
            assert_eq!(repr.buffer_len(), wire.len());
        }
    }
}

#[test]
fn parse_fails_on_a_short_packet() {
    let buffer = [0u8; 11];
    let packet = Packet::new_unchecked(&buffer[..]);
    assert_eq!(Repr::parse(&packet), Err(Error::BufferTooShort));
    let wire = [0, 0, 0, 0, 0, 0, 0, 4, 1, 2, 3, 4, 0, 0, 0, 1];
    let packet = Packet::new_unchecked(&wire[..]);
    assert_eq!(Repr::parse(&packet), Err(Error::BufferTooShort));
}

#[test]
fn repr_text_shows_flags_and_lengths() {
    let entries = [0u8; 16];
    let options = [0u8; 105];
    let repr = Repr::new(0xC0, &entries, &options);
    assert_eq!(
        repr.to_string(),
        "SOME/IP-SD Message: flags=0xC0, entries_len=16, options_len=105"
    );
    for flags in 0..=255u8 {
        let repr = Repr::new(flags, &entries[..flags as usize % 17], &options[..9]);
        assert_eq!(
            repr.to_string(),
            format!(
                "SOME/IP-SD Message: flags=0x{:02X}, entries_len={}, options_len={}",
                flags,
                flags as usize % 17,
                9
            )
        );
    }
}
