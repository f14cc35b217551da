use flate2::write::ZlibEncoder;
use flate2::Compression;
use kobold::framing::accept_decompressed;
use kobold::{DecodeError, Deserializer, DeserializerOptions, PropertyClass, SerializerFlags};
use std::io::Write;

fn zlib(plain: &[u8]) -> Vec<u8> {
    let mut encoder = ZlibEncoder::new(Vec::new(), Compression::default());
    encoder.write_all(plain).unwrap();
    encoder.finish().unwrap()
}

fn framed(declared: u32, plain: &[u8]) -> Vec<u8> {
    let mut out = declared.to_le_bytes().to_vec();
    out.extend_from_slice(&zlib(plain));
    out
}

fn options(flags: u32, manual_compression: bool) -> DeserializerOptions {
    DeserializerOptions {
        flags: SerializerFlags::from_bits_truncate(flags),
        manual_compression,
        ..DeserializerOptions::default()
    }
}

fn drain(de: &mut Deserializer<'_, PropertyClass>) -> Vec<u8> {
    let mut out = Vec::new();
    while let Ok(byte) = de.deserialize_u8() {
        out.push(byte);
    }
    out
}

#[test]
fn a_new_deserializer_has_nothing_to_read() {
    let mut de = Deserializer::<PropertyClass>::new(options(0, false));
    assert_eq!(de.reader().byte_offset(), 0);
    assert_eq!(de.deserialize_u8(), Err(DecodeError::Truncated));
    assert_eq!(*de.options(), options(0, false));
}

#[test]
fn automatic_mode_without_flags_reads_the_raw_buffer() {
    let data = [1u8, 2, 3];
    let mut scratch = vec![9u8, 9];
    let mut de = Deserializer::<PropertyClass>::new(options(0, false));
    assert_eq!(de.feed_data(&data, &mut scratch), Ok(()));
    assert_eq!(de.reader().byte_offset(), 0);
    assert_eq!(drain(&mut de), vec![1, 2, 3]);
    assert_eq!(de.options().flags, SerializerFlags::empty());
}

#[test]
fn automatic_mode_leaves_an_unused_scratch_buffer_alone() {
    let data = [1u8, 2, 3];
    let mut scratch = vec![9u8, 9];
    {
        let mut de = Deserializer::<PropertyClass>::new(options(0, false));
        assert_eq!(de.feed_data(&data, &mut scratch), Ok(()));
    }
    assert_eq!(scratch, vec![9, 9]);
}

#[test]
fn manual_compression_round_trip() {
    let plain = b"the quick brown fox jumps over the lazy dog".to_vec();
    let data = framed(plain.len() as u32, &plain);
    let mut scratch = vec![0xEEu8; 7];
    let mut de = Deserializer::<PropertyClass>::new(options(0, true));
    assert_eq!(de.feed_data(&data, &mut scratch), Ok(()));
    assert_eq!(de.reader().byte_offset(), 0);
    assert_eq!(drain(&mut de), plain);
}

#[test]
fn decompression_replaces_what_the_scratch_buffer_held() {
    let plain = vec![7u8; 1000];
    let data = framed(1000, &plain);
    let mut scratch = vec![0xEEu8; 7];
    {
        let mut de = Deserializer::<PropertyClass>::new(options(0, true));
        assert_eq!(de.feed_data(&data, &mut scratch), Ok(()));
    }
    assert_eq!(scratch, plain);
}

#[test]
fn a_wrong_declared_size_is_a_size_mismatch() {
    let plain = b"the quick brown fox jumps over the lazy dog".to_vec();
    for declared in [plain.len() as u32 + 1, plain.len() as u32 - 1, 0] {
        let data = framed(declared, &plain);
        let mut scratch = Vec::new();
        let mut de = Deserializer::<PropertyClass>::new(options(0, true));
        assert_eq!(
            de.feed_data(&data, &mut scratch),
            Err(DecodeError::CompressionSizeMismatch)
        );
    }
}

#[test]
fn an_empty_payload_round_trips() {
    let data = framed(0, &[]);
    let mut scratch = vec![1u8, 2, 3];
    let mut de = Deserializer::<PropertyClass>::new(options(0, true));
    assert_eq!(de.feed_data(&data, &mut scratch), Ok(()));
    assert_eq!(de.deserialize_u8(), Err(DecodeError::Truncated));
}

#[test]
fn a_corrupt_stream_is_a_zlib_error() {
    let data = [4u8, 0, 0, 0, 0xFF, 0xFF, 0xFF, 0xFF, 0xFF, 0xFF];
    let mut scratch = Vec::new();
    let mut de = Deserializer::<PropertyClass>::new(options(0, true));
    assert_eq!(de.feed_data(&data, &mut scratch), Err(DecodeError::ZlibError));
}

#[test]
fn a_frame_shorter_than_its_size_field_is_truncated() {
    for len in 0..4 {
        let data = vec![0u8; len];
        let mut scratch = Vec::new();
        let mut de = Deserializer::<PropertyClass>::new(options(0, true));
        assert_eq!(de.feed_data(&data, &mut scratch), Err(DecodeError::Truncated));
    }
}

#[test]
fn stateful_flags_are_read_before_the_compression_check() {
    let plain = vec![10u8, 20, 30, 40];
    let mut data = SerializerFlags::WITH_COMPRESSION.to_le_bytes().to_vec();
    data.push(1);
    data.extend_from_slice(&framed(4, &plain));
    let mut scratch = Vec::new();
    let mut de =
        Deserializer::<PropertyClass>::new(options(SerializerFlags::STATEFUL_FLAGS, false));
    assert!(!de.options().flags.contains(SerializerFlags::WITH_COMPRESSION));
    assert_eq!(de.feed_data(&data, &mut scratch), Ok(()));
    assert_eq!(de.options().flags.bits(), SerializerFlags::WITH_COMPRESSION);
    assert_eq!(drain(&mut de), plain);
}

#[test]
fn stateful_flags_drop_unknown_bits() {
    let mut data = 0xFFFF_FF02u32.to_le_bytes().to_vec();
    data.extend_from_slice(&[5, 6]);
    let mut scratch = Vec::new();
    let mut de =
        Deserializer::<PropertyClass>::new(options(SerializerFlags::STATEFUL_FLAGS, false));
    assert_eq!(de.feed_data(&data, &mut scratch), Ok(()));
    assert_eq!(
        de.options().flags.bits(),
        SerializerFlags::COMPACT_LENGTH_PREFIXES
    );
    assert_eq!(drain(&mut de), vec![5, 6]);
}

#[test]
fn stateful_flags_leave_the_other_options_alone() {
    let data = [0u8, 0, 0, 0, 1];
    let mut scratch = Vec::new();
    let configured = DeserializerOptions {
        flags: SerializerFlags::from_bits_truncate(0x1F),
        shallow: true,
        recursion_limit: 9,
        ..DeserializerOptions::default()
    };
    let mut de = Deserializer::<PropertyClass>::new(configured);
    assert_eq!(de.feed_data(&data, &mut scratch), Ok(()));
    assert_eq!(
        *de.options(),
        DeserializerOptions {
            flags: SerializerFlags::empty(),
            ..configured
        }
    );
    assert_eq!(drain(&mut de), vec![1]);
}

#[test]
fn embedded_flags_stay_in_force_for_the_next_buffer() {
    let first = [0u8, 0, 0, 0, 1];
    let second = [8u8, 0, 0, 0, 1];
    let mut scratch_one = Vec::new();
    let mut scratch_two = Vec::new();
    let mut de =
        Deserializer::<PropertyClass>::new(options(SerializerFlags::STATEFUL_FLAGS, false));
    assert_eq!(de.feed_data(&first, &mut scratch_one), Ok(()));
    assert_eq!(de.options().flags, SerializerFlags::empty());
    assert_eq!(de.feed_data(&second, &mut scratch_two), Ok(()));
    assert_eq!(de.options().flags, SerializerFlags::empty());
    assert_eq!(drain(&mut de), vec![8, 0, 0, 0, 1]);
}

#[test]
fn stateful_flags_need_four_bytes() {
    let data = [8u8, 0, 0];
    let mut scratch = Vec::new();
    let configured = options(SerializerFlags::STATEFUL_FLAGS, false);
    let mut de = Deserializer::<PropertyClass>::new(configured);
    assert_eq!(de.feed_data(&data, &mut scratch), Err(DecodeError::Truncated));
    assert_eq!(*de.options(), configured);
}

#[test]
fn a_zero_indicator_means_uncompressed() {
    let data = [0u8, 0xAA, 0xBB];
    let mut scratch = Vec::new();
    let mut de =
        Deserializer::<PropertyClass>::new(options(SerializerFlags::WITH_COMPRESSION, false));
    assert_eq!(de.feed_data(&data, &mut scratch), Ok(()));
    assert_eq!(drain(&mut de), vec![0xAA, 0xBB]);
}

#[test]
fn a_nonzero_indicator_means_compressed() {
    let plain = vec![3u8, 1, 4, 1, 5, 9, 2, 6];
    for indicator in [1u8, 0xFF] {
        let mut data = vec![indicator];
        data.extend_from_slice(&framed(8, &plain));
        let mut scratch = Vec::new();
        let mut de = Deserializer::<PropertyClass>::new(options(
            SerializerFlags::WITH_COMPRESSION,
            false,
        ));
        assert_eq!(de.feed_data(&data, &mut scratch), Ok(()));
        assert_eq!(drain(&mut de), plain);
    }
}

#[test]
fn a_missing_indicator_is_truncated() {
    let data: [u8; 0] = [];
    let mut scratch = Vec::new();
    let mut de =
        Deserializer::<PropertyClass>::new(options(SerializerFlags::WITH_COMPRESSION, false));
    assert_eq!(de.feed_data(&data, &mut scratch), Err(DecodeError::Truncated));
}

#[test]
fn embedded_flags_survive_a_failure_after_them() {
    let data = [8u8, 0, 0, 0];
    let mut scratch = Vec::new();
    let mut de =
        Deserializer::<PropertyClass>::new(options(SerializerFlags::STATEFUL_FLAGS, false));
    assert_eq!(de.feed_data(&data, &mut scratch), Err(DecodeError::Truncated));
    assert_eq!(de.options().flags.bits(), SerializerFlags::WITH_COMPRESSION);
}

#[test]
fn without_the_compression_flag_no_indicator_is_read() {
    let data = [1u8, 2];
    let mut scratch = Vec::new();
    let mut de = Deserializer::<PropertyClass>::new(options(
        SerializerFlags::COMPACT_LENGTH_PREFIXES,
        false,
    ));
    assert_eq!(de.feed_data(&data, &mut scratch), Ok(()));
    assert_eq!(drain(&mut de), vec![1, 2]);
}

#[test]
fn manual_mode_reads_stateful_flags_from_the_inflated_stream() {
    let mut plain = (SerializerFlags::HUMAN_READABLE_ENUMS | 0x4000).to_le_bytes().to_vec();
    plain.extend_from_slice(&[0x11, 0x22]);
    let data = framed(6, &plain);
    let mut scratch = Vec::new();
    let mut de =
        Deserializer::<PropertyClass>::new(options(SerializerFlags::STATEFUL_FLAGS, true));
    assert_eq!(de.feed_data(&data, &mut scratch), Ok(()));
    assert_eq!(de.options().flags.bits(), SerializerFlags::HUMAN_READABLE_ENUMS);
    assert_eq!(de.reader().byte_offset(), 4);
    assert_eq!(drain(&mut de), vec![0x11, 0x22]);
}

#[test]
fn manual_mode_with_too_short_a_stream_for_the_flags_is_truncated() {
    let data = framed(3, &[1, 2, 3]);
    let mut scratch = Vec::new();
    let configured = options(SerializerFlags::STATEFUL_FLAGS, true);
    let mut de = Deserializer::<PropertyClass>::new(configured);
    assert_eq!(de.feed_data(&data, &mut scratch), Err(DecodeError::Truncated));
    assert_eq!(*de.options(), configured);
}

#[test]
fn manual_mode_ignores_the_compression_flag_and_reads_no_indicator() {
    let plain = vec![0u8, 1, 2];
    let data = framed(3, &plain);
    let mut scratch = Vec::new();
    let mut de =
        Deserializer::<PropertyClass>::new(options(SerializerFlags::WITH_COMPRESSION, true));
    assert_eq!(de.feed_data(&data, &mut scratch), Ok(()));
    assert_eq!(drain(&mut de), plain);
}

#[test]
fn a_second_buffer_replaces_the_cursor() {
    let first = [0xFFu8, 0xFF];
    let second = [0x01u8];
    let mut scratch_one = Vec::new();
    let mut scratch_two = Vec::new();
    let mut de = Deserializer::<PropertyClass>::new(options(0, false));
    assert_eq!(de.feed_data(&first, &mut scratch_one), Ok(()));
    assert_eq!(de.deserialize_unsigned_bits(3), Ok(7));
    assert_eq!(de.feed_data(&second, &mut scratch_two), Ok(()));
    assert_eq!(
        (de.reader().byte_offset(), de.reader().bit_offset()),
        (0, 0)
    );
    assert_eq!(drain(&mut de), vec![1]);
}

#[test]
fn a_failed_load_keeps_the_earlier_cursor() {
    let first = [0x0Au8, 0x0B];
    let second = [1u8, 2];
    let mut scratch_one = Vec::new();
    let mut scratch_two = Vec::new();
    let mut de = Deserializer::<PropertyClass>::new(options(0, true));
    let first = framed(2, &first);
    assert_eq!(de.feed_data(&first, &mut scratch_one), Ok(()));
    assert_eq!(de.deserialize_u8(), Ok(0x0A));
    assert_eq!(
        de.feed_data(&second, &mut scratch_two),
        Err(DecodeError::Truncated)
    );
    assert_eq!(de.reader().byte_offset(), 1);
    assert_eq!(drain(&mut de), vec![0x0B]);
}

#[test]
fn accept_decompressed_checks_the_declared_length() {
    let plain = [1u8, 2, 3];
    let reader = accept_decompressed(3, &plain);
    assert_eq!(reader.map(|r| (r.byte_offset(), r.bit_offset())), Ok((0, 0)));
    let mut reader = accept_decompressed(3, &plain).unwrap();
    assert_eq!(reader.read_bytes(3), Ok(vec![1, 2, 3]));
    assert_eq!(
        accept_decompressed(2, &plain).err(),
        Some(DecodeError::CompressionSizeMismatch)
    );
    assert_eq!(
        accept_decompressed(4, &plain).err(),
        Some(DecodeError::CompressionSizeMismatch)
    );
    assert!(accept_decompressed(0, &[]).is_ok());
}
