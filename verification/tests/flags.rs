use kobold::{BitWidth, DecodeError, DeserializerOptions, PropertyFlags, SerializerFlags};

#[test]
fn serializer_flag_bits_are_the_documented_ones() {
    assert_eq!(SerializerFlags::STATEFUL_FLAGS, 1 << 0);
    assert_eq!(SerializerFlags::COMPACT_LENGTH_PREFIXES, 1 << 1);
    assert_eq!(SerializerFlags::HUMAN_READABLE_ENUMS, 1 << 2);
    assert_eq!(SerializerFlags::WITH_COMPRESSION, 1 << 3);
    assert_eq!(SerializerFlags::FORBID_DELTA_ENCODE, 1 << 4);
    assert_eq!(SerializerFlags::ALL, 0b1_1111);
}

#[test]
fn from_bits_truncate_ignores_unknown_bits() {
    assert_eq!(SerializerFlags::from_bits_truncate(0xFFFF_FFFF).bits(), 0x1F);
    assert_eq!(SerializerFlags::from_bits_truncate(0x20), SerializerFlags::empty());
    assert_eq!(SerializerFlags::from_bits_truncate(0x128).bits(), 0x08);
    assert_eq!(SerializerFlags::from_bits_truncate(0x0A).bits(), 0x0A);
}

#[test]
fn serializer_flags_membership() {
    let flags = SerializerFlags::from_bits_truncate(
        SerializerFlags::STATEFUL_FLAGS | SerializerFlags::WITH_COMPRESSION,
    );
    assert!(flags.contains(SerializerFlags::STATEFUL_FLAGS));
    assert!(flags.contains(SerializerFlags::WITH_COMPRESSION));
    assert!(!flags.contains(SerializerFlags::COMPACT_LENGTH_PREFIXES));
    assert!(!flags.contains(SerializerFlags::HUMAN_READABLE_ENUMS));
    assert!(!flags.contains(SerializerFlags::FORBID_DELTA_ENCODE));
    assert!(!flags.contains(
        SerializerFlags::STATEFUL_FLAGS | SerializerFlags::FORBID_DELTA_ENCODE
    ));
    assert!(!SerializerFlags::empty().contains(SerializerFlags::STATEFUL_FLAGS));
    assert!(SerializerFlags::empty().contains(0));
}

#[test]
fn serializer_flags_with_adds_bits() {
    let flags = SerializerFlags::empty()
        .with(SerializerFlags::COMPACT_LENGTH_PREFIXES)
        .with(SerializerFlags::FORBID_DELTA_ENCODE);
    assert_eq!(flags.bits(), 0x12);
    assert_eq!(flags.with(SerializerFlags::COMPACT_LENGTH_PREFIXES), flags);
}

#[test]
fn property_flag_bits_are_distinct() {
    assert_eq!(PropertyFlags::TRANSMIT & PropertyFlags::PRIVILEGED_TRANSMIT, 0);
    assert_eq!(PropertyFlags::TRANSMIT & PropertyFlags::DELTA_ENCODE, 0);
    assert_eq!(PropertyFlags::PRIVILEGED_TRANSMIT & PropertyFlags::DELTA_ENCODE, 0);
    assert_eq!(PropertyFlags::TRANSMIT.count_ones(), 1);
    assert_eq!(PropertyFlags::PRIVILEGED_TRANSMIT.count_ones(), 1);
    assert_eq!(PropertyFlags::DELTA_ENCODE.count_ones(), 1);
}

#[test]
fn property_flags_intersect_a_mask_that_shares_a_bit() {
    let privileged = PropertyFlags::from_bits_retain(PropertyFlags::PRIVILEGED_TRANSMIT);
    let transmit_only = PropertyFlags::from_bits_retain(PropertyFlags::TRANSMIT);
    let both = transmit_only.with(PropertyFlags::PRIVILEGED_TRANSMIT);
    assert!(!privileged.intersects(transmit_only));
    assert!(privileged.intersects(both));
    assert!(privileged.intersects(privileged));
    assert!(!PropertyFlags::empty().intersects(both));
    assert!(!both.intersects(PropertyFlags::empty()));
}

#[test]
fn property_flags_membership() {
    let flags = PropertyFlags::from_bits_retain(PropertyFlags::TRANSMIT | PropertyFlags::DELTA_ENCODE);
    assert!(flags.contains(PropertyFlags::TRANSMIT));
    assert!(flags.contains(PropertyFlags::DELTA_ENCODE));
    assert!(!flags.contains(PropertyFlags::PRIVILEGED_TRANSMIT));
    assert_eq!(flags.bits(), 0x108);
}

#[test]
fn default_options() {
    let options = DeserializerOptions::default();
    assert_eq!(options.flags, SerializerFlags::empty());
    assert_eq!(
        options.property_mask.bits(),
        PropertyFlags::TRANSMIT | PropertyFlags::PRIVILEGED_TRANSMIT
    );
    assert!(!options.shallow);
    assert!(!options.manual_compression);
    assert_eq!(options.recursion_limit, 127);
}

#[test]
fn bit_widths_run_from_one_to_sixty_four() {
    assert!(BitWidth::new(0).is_none());
    assert!(BitWidth::new(65).is_none());
    assert!(BitWidth::new(255).is_none());
    assert_eq!(BitWidth::new(1).map(|w| w.get()), Some(1));
    assert_eq!(BitWidth::new(64).map(|w| w.get()), Some(64));
    assert_eq!(BitWidth::new(17).map(|w| w.get()), Some(17));
}

#[test]
fn every_error_has_its_own_message() {
    let all = [
        DecodeError::Truncated,
        DecodeError::CompressionSizeMismatch,
        DecodeError::RecursionLimitExceeded,
        DecodeError::ZlibError,
    ];
    assert_eq!(DecodeError::Truncated.message(), "unexpected end of input");
    assert_eq!(
        DecodeError::CompressionSizeMismatch.message(),
        "compression size mismatch"
    );
    assert_eq!(
        DecodeError::RecursionLimitExceeded.message(),
        "deserializer recursion limit exceeded"
    );
    assert_eq!(DecodeError::ZlibError.message(), "corrupt zlib stream");
    for (i, a) in all.iter().enumerate() {
        for (j, b) in all.iter().enumerate() {
            assert_eq!(a.message() == b.message(), i == j);
        }
    }
}
