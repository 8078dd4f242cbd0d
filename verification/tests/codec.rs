use bytes::Bytes;
use smq_lib::endian::{read_be, write_be};
use smq_lib::enums::code::Code;
use smq_lib::enums::errors::MessageError;
use smq_lib::enums::types::Type;
use smq_lib::structs::helper::elements::{append_element, element_from_pattern};
use smq_lib::structs::helper::message::{
    map_code_to_nibble, map_nibble_to_code, map_nibble_to_type, map_type_to_nibble, parse_num,
    parse_string, validate_body, validate_header,
};
use smq_lib::structs::message::Message;
use std::str::FromStr;

fn decode(bytes: &[u8]) -> Result<Message, MessageError> {
    Message::deserialize(&Bytes::from(bytes.to_vec()))
}

fn round_trip(message: &Message) -> Message {
    Message::deserialize(&message.serialize()).unwrap()
}

#[test]
fn big_endian_write_puts_the_high_byte_first() {
    let mut buf = vec![9u8];
    write_be(&mut buf, 0x0102_0304, 4);
    assert_eq!(buf, vec![9, 1, 2, 3, 4]);
    write_be(&mut buf, 0x0102_0304, 2);
    assert_eq!(buf, vec![9, 1, 2, 3, 4, 3, 4]);
    write_be(&mut buf, 7, 0);
    assert_eq!(buf.len(), 7);
    let mut padded = Vec::new();
    write_be(&mut padded, 0x0102, 8);
    assert_eq!(padded, vec![0, 0, 0, 0, 0, 0, 1, 2]);
    let mut wide = Vec::new();
    write_be(&mut wide, u64::MAX - 1, 8);
    assert_eq!(wide, vec![255, 255, 255, 255, 255, 255, 255, 254]);
}

#[test]
fn big_endian_read_takes_the_bytes_in_order() {
    let bytes = [0xAAu8, 0x01, 0x02, 0x03, 0x04, 0xBB];
    assert_eq!(read_be(&bytes, 1, 4), 0x0102_0304);
    assert_eq!(read_be(&bytes, 0, 1), 0xAA);
    assert_eq!(read_be(&bytes, 6, 0), 0);
    assert_eq!(read_be(&[255u8; 8], 0, 8), u64::MAX);
}

#[test]
fn signed_elements_are_written_in_twos_complement() {
    let mut buf = Vec::new();
    append_element(&mut buf, &Type::I16(-2));
    assert_eq!(buf, vec![0xFF, 0xFE]);
    append_element(&mut buf, &Type::I8(i8::MIN));
    assert_eq!(buf, vec![0xFF, 0xFE, 0x80]);
    append_element(&mut buf, &Type::I32(-1));
    assert_eq!(&buf[3..], &[0xFF, 0xFF, 0xFF, 0xFF]);
    let mut wide = Vec::new();
    append_element(&mut wide, &Type::I64(i64::MIN));
    assert_eq!(wide, vec![0x80, 0, 0, 0, 0, 0, 0, 0]);
    let mut none = vec![1u8];
    append_element(&mut none, &Type::Str(String::from("ignored")));
    assert_eq!(none, vec![1]);
}

#[test]
fn elements_come_back_from_their_patterns() {
    assert_eq!(element_from_pattern(&Type::I16(0), 0xFFFE), Type::I16(-2));
    assert_eq!(element_from_pattern(&Type::I8(0), 0x80), Type::I8(i8::MIN));
    assert_eq!(element_from_pattern(&Type::I8(0), 0x7F), Type::I8(i8::MAX));
    assert_eq!(element_from_pattern(&Type::U32(0), 0xFFFF_FFFF), Type::U32(u32::MAX));
    assert_eq!(element_from_pattern(&Type::I64(0), u64::MAX), Type::I64(-1));
    assert_eq!(element_from_pattern(&Type::F32(0), 0x3F80_0000), Type::F32(1.0f32.to_bits()));
    assert_eq!(element_from_pattern(&Type::F64(0), 1), Type::F64(1));
    assert_eq!(element_from_pattern(&Type::U8(0), 0x1FF), Type::U8(0xFF));
    assert_eq!(element_from_pattern(&Type::I16(0), 0xABCD_FFFF), Type::I16(-1));
    assert_eq!(element_from_pattern(&Type::Str(String::from("x")), 9), Type::Str(String::new()));
}

#[test]
fn type_nibbles_follow_the_order_of_the_format() {
    let tags = [
        Type::U8(0),
        Type::U16(0),
        Type::U32(0),
        Type::U64(0),
        Type::I8(0),
        Type::I16(0),
        Type::I32(0),
        Type::I64(0),
        Type::F32(0),
        Type::F64(0),
        Type::Str(String::new()),
    ];
    for (nibble, tag) in tags.iter().enumerate() {
        assert_eq!(map_type_to_nibble(tag), nibble as u8);
        assert_eq!(&map_nibble_to_type(nibble as u8), tag);
    }
    assert_eq!(map_nibble_to_type(11), Type::Str(String::new()));
    assert_eq!(map_nibble_to_type(255), Type::Str(String::new()));
    assert_eq!(map_type_to_nibble(&Type::U16(77)), 1);
}

#[test]
fn type_sizes_are_the_element_widths() {
    assert_eq!(Type::U8(0).get_size(), 1);
    assert_eq!(Type::I8(0).get_size(), 1);
    assert_eq!(Type::U16(0).get_size(), 2);
    assert_eq!(Type::I16(0).get_size(), 2);
    assert_eq!(Type::U32(0).get_size(), 4);
    assert_eq!(Type::I32(0).get_size(), 4);
    assert_eq!(Type::F32(0).get_size(), 4);
    assert_eq!(Type::U64(0).get_size(), 8);
    assert_eq!(Type::I64(0).get_size(), 8);
    assert_eq!(Type::F64(0).get_size(), 8);
    assert_eq!(Type::Str(String::from("abc")).get_size(), 0);
}

#[test]
fn status_nibbles_sit_in_the_upper_half() {
    assert_eq!(map_code_to_nibble(&Code::SUCCESS), 0b0000_0000);
    assert_eq!(map_code_to_nibble(&Code::NULL_DATA), 0b0001_0000);
    assert_eq!(map_code_to_nibble(&Code::EMPTY_QUEUE), 0b0010_0000);
    assert_eq!(map_nibble_to_code(0b0000_0000), Code::SUCCESS);
    assert_eq!(map_nibble_to_code(0b0010_0000), Code::EMPTY_QUEUE);
    assert_eq!(map_nibble_to_code(0b0001_0000), Code::EMPTY_QUEUE);
}

#[test]
fn header_check_accepts_the_two_statuses_and_eleven_types() {
    for byte in 0..=255u8 {
        let status = byte >> 4;
        let ty = byte & 0x0F;
        let expected = if (status == 0 || status == 2) && ty <= 10 {
            Ok(())
        } else {
            Err(MessageError::InvalidHeaderBits)
        };
        assert_eq!(validate_header(&[byte, 0, 0, 0, 0]), expected);
        assert_eq!(validate_header(&[byte]), expected);
    }
    assert_eq!(validate_header(&[]), Err(MessageError::InvalidHeaderBits));
}

#[test]
fn body_check_of_fixed_width_types_compares_lengths() {
    assert_eq!(validate_body(&[0, 1, 0, 127], 2, &Type::U16(0)), Ok(()));
    assert_eq!(
        validate_body(&[0, 1, 0, 127], 3, &Type::U16(0)),
        Err(MessageError::InvalidDataLength)
    );
    assert_eq!(validate_body(&[], 0, &Type::F64(0)), Ok(()));
    assert_eq!(validate_body(&[0; 8], 1, &Type::F64(0)), Ok(()));
    assert_eq!(validate_body(&[0; 7], 1, &Type::F64(0)), Err(MessageError::InvalidDataLength));
    assert_eq!(
        validate_body(&[], usize::MAX, &Type::I64(0)),
        Err(MessageError::InvalidDataLength)
    );
}

#[test]
fn body_check_of_strings_looks_at_the_last_byte() {
    let tag = Type::Str(String::new());
    assert_eq!(validate_body(b"ab\0", 1, &tag), Ok(()));
    assert_eq!(validate_body(b"ab\0", 7, &tag), Ok(()));
    assert_eq!(validate_body(b"ab", 1, &tag), Err(MessageError::InvalidData));
    assert_eq!(validate_body(b"\0a", 1, &tag), Err(MessageError::InvalidData));
    assert_eq!(validate_body(b"", 0, &tag), Err(MessageError::InvalidData));
}

#[test]
fn string_payload_splits_at_each_nul() {
    let parsed = parse_string(b"ab\0\0cd\0tail");
    assert_eq!(
        parsed,
        vec![
            Type::Str(String::from("ab")),
            Type::Str(String::new()),
            Type::Str(String::from("cd")),
        ]
    );
    assert_eq!(parse_string(b""), Vec::<Type>::new());
    assert_eq!(parse_string(b"no terminator"), Vec::<Type>::new());
    assert_eq!(parse_string(b"\0"), vec![Type::Str(String::new())]);
}

#[test]
fn invalid_utf8_is_replaced_when_a_string_is_parsed() {
    let parsed = parse_string(&[b'a', 0xFF, b'b', 0]);
    assert_eq!(parsed, vec![Type::Str(String::from("a\u{FFFD}b"))]);
    let msg = decode(&[0x0A, 0, 0, 0, 1, 0xC3, 0x28, 0]).unwrap();
    assert_eq!(msg.parse_data_to_str().unwrap(), vec![String::from("\u{FFFD}(")]);
}

#[test]
fn numeric_payload_is_cut_into_whole_elements() {
    let data = vec![0, 1, 0xFF, 0xFE, 9];
    assert_eq!(parse_num(&data, Type::U16(0)), vec![Type::U16(1), Type::U16(0xFFFE)]);
    assert_eq!(parse_num(&data, Type::I16(0)), vec![Type::I16(1), Type::I16(-2)]);
    assert_eq!(parse_num(&data, Type::U32(0)), vec![Type::U32(0x0001_FFFE)]);
    assert_eq!(parse_num(&data, Type::U64(0)), Vec::<Type>::new());
    assert_eq!(parse_num(&Vec::new(), Type::U8(0)), Vec::<Type>::new());
    assert_eq!(parse_num(&data, Type::Str(String::new())), Vec::<Type>::new());
}

#[test]
fn getters_report_what_the_constructor_was_given() {
    let msg = Message::from_i32_arr(&[-1, 2, 3]);
    assert_eq!(msg.get_type(), &Type::I32(0));
    assert_eq!(msg.get_code(), Code::SUCCESS);
    assert_eq!(msg.get_size(), 3);
    assert_eq!(*msg.get_data(), vec![0xFF, 0xFF, 0xFF, 0xFF, 0, 0, 0, 2, 0, 0, 0, 3]);

    let text = Message::from_str_arr(&[String::from("a"), String::from("bc")]);
    assert_eq!(text.get_type(), &Type::Str(String::new()));
    assert_eq!(text.get_size(), 2);
    assert_eq!(*text.get_data(), b"a\0bc\0".to_vec());
}

#[test]
fn a_single_string_becomes_one_terminated_run() {
    let msg = Message::from_str("Halo").unwrap();
    assert_eq!(msg.get_size(), 1);
    assert_eq!(*msg.get_data(), b"Halo\0".to_vec());
    assert_eq!(msg.serialize(), Bytes::from(b"\x0A\0\0\0\x01Halo\0".to_vec()));
    let parsed: Message = "Halo".parse().unwrap();
    assert_eq!(parsed, msg);
    assert_eq!(<Message as FromStr>::from_str("Halo").unwrap(), msg);
}

#[test]
fn count_is_written_in_four_big_endian_bytes() {
    let msg = Message::from_u8_arr(&vec![7u8; 0x0102]);
    let wire = msg.serialize();
    assert_eq!(&wire[..5], &[0x00, 0x00, 0x00, 0x01, 0x02]);
    assert_eq!(wire.len(), 5 + 0x0102);
    assert_eq!(round_trip(&msg), msg);
}

#[test]
fn every_numeric_type_round_trips_with_its_extremes() {
    let m = Message::from_u8_arr(&[u8::MIN, 1, u8::MAX]);
    assert_eq!(round_trip(&m), m);
    assert_eq!(round_trip(&m).parse_data_to_u8().unwrap(), vec![u8::MIN, 1, u8::MAX]);
    let m = Message::from_u16_arr(&[u16::MIN, 1, u16::MAX]);
    assert_eq!(round_trip(&m), m);
    assert_eq!(round_trip(&m).parse_data_to_u16().unwrap(), vec![u16::MIN, 1, u16::MAX]);
    let m = Message::from_u32_arr(&[u32::MIN, 1, u32::MAX]);
    assert_eq!(round_trip(&m), m);
    assert_eq!(round_trip(&m).parse_data_to_u32().unwrap(), vec![u32::MIN, 1, u32::MAX]);
    let m = Message::from_u64_arr(&[u64::MIN, 1, u64::MAX]);
    assert_eq!(round_trip(&m), m);
    assert_eq!(round_trip(&m).parse_data_to_u64().unwrap(), vec![u64::MIN, 1, u64::MAX]);
    let m = Message::from_i8_arr(&[i8::MIN, -1, 0, i8::MAX]);
    assert_eq!(round_trip(&m), m);
    assert_eq!(round_trip(&m).parse_data_to_i8().unwrap(), vec![i8::MIN, -1, 0, i8::MAX]);
    let m = Message::from_i16_arr(&[i16::MIN, -1, 0, i16::MAX]);
    assert_eq!(round_trip(&m), m);
    assert_eq!(round_trip(&m).parse_data_to_i16().unwrap(), vec![i16::MIN, -1, 0, i16::MAX]);
    let m = Message::from_i32_arr(&[i32::MIN, -1, 0, i32::MAX]);
    assert_eq!(round_trip(&m), m);
    assert_eq!(round_trip(&m).parse_data_to_i32().unwrap(), vec![i32::MIN, -1, 0, i32::MAX]);
    let m = Message::from_i64_arr(&[i64::MIN, -1, 0, i64::MAX]);
    assert_eq!(round_trip(&m), m);
    assert_eq!(round_trip(&m).parse_data_to_i64().unwrap(), vec![i64::MIN, -1, 0, i64::MAX]);
}

#[test]
fn floats_round_trip_through_their_bit_patterns() {
    let values = [f32::MIN, -0.0, 1.5, f32::MAX, f32::INFINITY];
    let bits: Vec<u32> = values.iter().map(|x| x.to_bits()).collect();
    let m = Message::from_f32_arr(&bits);
    assert_eq!(&m.serialize()[..9], &[0x08, 0, 0, 0, 5, 0xFF, 0x7F, 0xFF, 0xFF]);
    let back: Vec<f32> =
        round_trip(&m).parse_data_to_f32().unwrap().into_iter().map(f32::from_bits).collect();
    assert_eq!(back, values.to_vec());

    let values = [f64::MIN, 1.0, f64::MAX];
    let bits: Vec<u64> = values.iter().map(|x| x.to_bits()).collect();
    let m = Message::from_f64_arr(&bits);
    assert_eq!(&m.serialize()[5..13], &f64::MIN.to_be_bytes());
    let back: Vec<f64> =
        round_trip(&m).parse_data_to_f64().unwrap().into_iter().map(f64::from_bits).collect();
    assert_eq!(back, values.to_vec());
}

#[test]
fn strings_round_trip_with_the_empty_string_among_them() {
    let texts = vec![String::new(), String::from("Hello, World!"), String::from("héllo ✓")];
    let m = Message::from_str_arr(&texts);
    assert_eq!(m.get_size(), 3);
    assert_eq!(round_trip(&m), m);
    assert_eq!(round_trip(&m).parse_data_to_str().unwrap(), texts);

    let empty = Message::from_str("").unwrap();
    assert_eq!(empty.serialize(), Bytes::from(vec![0x0A, 0, 0, 0, 1, 0]));
    assert_eq!(round_trip(&empty), empty);
    assert_eq!(round_trip(&empty).parse_data_to_str().unwrap(), vec![String::new()]);
}

#[test]
fn an_empty_numeric_message_round_trips() {
    let m = Message::from_u64_arr(&[]);
    assert_eq!(m.serialize(), Bytes::from(vec![0x03, 0, 0, 0, 0]));
    assert_eq!(round_trip(&m), m);
    assert_eq!(m.parse_data_to_u64().unwrap(), Vec::<u64>::new());
}

#[test]
fn a_message_of_no_strings_fails_validation_and_decoding() {
    let m = Message::from_str_arr(&[]);
    assert_eq!(m.validate(), Err(MessageError::InvalidData));
    assert_eq!(m.serialize(), Bytes::from(vec![0x0A, 0, 0, 0, 0]));
    assert_eq!(Message::deserialize(&m.serialize()).unwrap_err(), MessageError::InvalidData);
    assert_eq!(m.parse_data_to_str().unwrap(), Vec::<String>::new());
}

#[test]
fn constructed_messages_pass_validation() {
    assert_eq!(Message::from_u16_arr(&[1, 127]).validate(), Ok(()));
    assert_eq!(Message::from_i64_arr(&[]).validate(), Ok(()));
    assert_eq!(Message::from_str("x").unwrap().validate(), Ok(()));
    assert_eq!(Message::from_str_arr(&[String::from("a")]).validate(), Ok(()));
    assert_eq!(Message::empty_message().validate(), Ok(()));
    assert_eq!(decode(&[0x21, 0, 0, 0, 1, 0, 5]).unwrap().validate(), Ok(()));
}

#[test]
fn the_sentinel_is_a_header_and_nothing_else() {
    let sentinel = Message::empty_message();
    assert_eq!(sentinel.get_code(), Code::EMPTY_QUEUE);
    assert_eq!(sentinel.get_size(), 0);
    assert_eq!(sentinel.get_data().len(), 0);
    assert_eq!(sentinel.serialize(), Bytes::from(vec![0b0010_0000, 0, 0, 0, 0]));
    assert_eq!(round_trip(&sentinel), sentinel);
}

#[test]
fn decoding_keeps_the_status_of_the_header() {
    let m = decode(&[0b0010_0001, 0, 0, 0, 1, 0, 9]).unwrap();
    assert_eq!(m.get_code(), Code::EMPTY_QUEUE);
    assert_eq!(m.get_type(), &Type::U16(0));
    assert_eq!(m.parse_data_to_u16().unwrap(), vec![9]);
    assert_eq!(m.serialize(), Bytes::from(vec![0b0010_0001, 0, 0, 0, 1, 0, 9]));
}

#[test]
fn every_bad_header_is_rejected_before_the_body_is_looked_at() {
    for byte in 0..=255u8 {
        let status = byte >> 4;
        let ty = byte & 0x0F;
        if (status == 0 || status == 2) && ty <= 10 {
            continue;
        }
        assert_eq!(decode(&[byte, 0, 0, 0, 0]).unwrap_err(), MessageError::InvalidHeaderBits);
        assert_eq!(
            decode(&[byte, 0, 0, 0, 9, 1, 2, 3]).unwrap_err(),
            MessageError::InvalidHeaderBits
        );
    }
}

#[test]
fn input_shorter_than_a_header_is_rejected() {
    assert_eq!(decode(&[]).unwrap_err(), MessageError::InvalidHeaderBits);
    assert_eq!(decode(&[0]).unwrap_err(), MessageError::InvalidHeaderBits);
    assert_eq!(decode(&[0, 0, 0, 0]).unwrap_err(), MessageError::InvalidHeaderBits);
    assert_eq!(decode(&[0x0A, 0, 0, 0]).unwrap_err(), MessageError::InvalidHeaderBits);
}

#[test]
fn every_fixed_width_type_rejects_a_wrong_length() {
    let widths = [1usize, 2, 4, 8, 1, 2, 4, 8, 4, 8];
    for (nibble, width) in widths.iter().enumerate() {
        let mut good = vec![nibble as u8, 0, 0, 0, 2];
        good.extend(vec![0u8; 2 * width]);
        assert!(decode(&good).is_ok());

        let mut long = good.clone();
        long.push(0);
        assert_eq!(decode(&long).unwrap_err(), MessageError::InvalidDataLength);

        let short = &good[..good.len() - 1];
        assert_eq!(decode(short).unwrap_err(), MessageError::InvalidDataLength);

        let mut miscounted = good.clone();
        miscounted[4] = 3;
        assert_eq!(decode(&miscounted).unwrap_err(), MessageError::InvalidDataLength);
    }
}

#[test]
fn a_string_payload_must_end_in_nul() {
    assert_eq!(decode(&[0x0A, 0, 0, 0, 1, b'a']).unwrap_err(), MessageError::InvalidData);
    assert_eq!(decode(&[0x0A, 0, 0, 0, 1, 0, b'a']).unwrap_err(), MessageError::InvalidData);
    assert_eq!(decode(&[0x0A, 0, 0, 0, 0]).unwrap_err(), MessageError::InvalidData);
    assert_eq!(decode(&[0x2A, 0, 0, 0, 0]).unwrap_err(), MessageError::InvalidData);
    assert!(decode(&[0x0A, 0, 0, 0, 1, b'a', 0]).is_ok());
    assert!(decode(&[0x0A, 0, 0, 0, 9, b'a', 0]).is_ok());
}

#[test]
fn a_parse_under_another_type_is_refused() {
    let m = Message::from_u16_arr(&[1]);
    assert_eq!(m.parse_data_to_u8().unwrap_err(), MessageError::InvalidType);
    assert_eq!(m.parse_data_to_u32().unwrap_err(), MessageError::InvalidType);
    assert_eq!(m.parse_data_to_u64().unwrap_err(), MessageError::InvalidType);
    assert_eq!(m.parse_data_to_i8().unwrap_err(), MessageError::InvalidType);
    assert_eq!(m.parse_data_to_i16().unwrap_err(), MessageError::InvalidType);
    assert_eq!(m.parse_data_to_i32().unwrap_err(), MessageError::InvalidType);
    assert_eq!(m.parse_data_to_i64().unwrap_err(), MessageError::InvalidType);
    assert_eq!(m.parse_data_to_f32().unwrap_err(), MessageError::InvalidType);
    assert_eq!(m.parse_data_to_f64().unwrap_err(), MessageError::InvalidType);
    assert_eq!(m.parse_data_to_str().unwrap_err(), MessageError::InvalidType);
    let text = Message::from_str("1").unwrap();
    assert_eq!(text.parse_data_to_u16().unwrap_err(), MessageError::InvalidType);
    let floats = Message::from_f32_arr(&[0]);
    assert_eq!(floats.parse_data_to_u32().unwrap_err(), MessageError::InvalidType);
    assert_eq!(floats.parse_data_to_i32().unwrap_err(), MessageError::InvalidType);
}

#[test]
fn the_payload_is_shared_not_copied() {
    let m = Message::from_u8_arr(&[1, 2, 3]);
    let first = m.get_data();
    let second = m.get_data();
    assert!(std::sync::Arc::ptr_eq(&first, &second));
    assert_eq!(*first, vec![1, 2, 3]);
}
