use holter_bridge::codec::encode;
use holter_bridge::codec::Msg;
use holter_bridge::parser::header_parser;
use holter_bridge::parser::name_parser;
use holter_bridge::parser::name_sz_parser;
use holter_bridge::parser::op_parser;
use holter_bridge::parser::pars_answer;
use holter_bridge::parser::sign_parser;
use holter_bridge::parser::u16_from_le;
use holter_bridge::parser::u16_to_le;
use holter_bridge::parser::u32_from_le;
use holter_bridge::parser::u32_to_le;
use holter_bridge::parser::utf8_string;
use holter_bridge::parser::value_builder;
use holter_bridge::parser::value_parser;
use holter_bridge::parser::value_reader;
use holter_bridge::parser::value_type;
use holter_bridge::parser::Error;
use holter_bridge::parser::OperationStatus;
use holter_bridge::parser::RegTypeId;
use holter_bridge::parser::RegisterValue;
use holter_bridge::parser::PROTOCOL_SIGN;

fn answer(code: u8, path: &[u8], rest: &[u8]) -> Vec<u8> {
    let mut out = vec![PROTOCOL_SIGN, code, path.len() as u8];
    out.extend_from_slice(path);
    out.extend_from_slice(rest);
    out
}

fn sample_values() -> Vec<RegisterValue> {
    vec![
        RegisterValue::UNIT,
        RegisterValue::U8(1),
        RegisterValue::I8(-3),
        RegisterValue::U16(0xBEEF),
        RegisterValue::I16(-300),
        RegisterValue::U32(0xDEADBEEF),
        RegisterValue::I32(i32::MIN),
        RegisterValue::STR("Hello world".to_string()),
        RegisterValue::STR(String::new()),
        RegisterValue::BYTES(vec![1, 2, 3, 4]),
        RegisterValue::BYTES(vec![0; 255]),
    ]
}

#[test]
fn type_tags_have_their_numbers() {
    let tags = [
        RegTypeId::UNIT,
        RegTypeId::I32,
        RegTypeId::I16,
        RegTypeId::I8,
        RegTypeId::U32,
        RegTypeId::U16,
        RegTypeId::U8,
        RegTypeId::STR,
        RegTypeId::BYTES,
    ];
    for (n, tag) in tags.iter().enumerate() {
        assert_eq!(RegTypeId::try_from(n as u8), Ok(*tag));
        assert_eq!(tag.to_wire(), n as u8);
    }
    for n in 0..=255u8 {
        assert_eq!(RegTypeId::try_from(n).is_ok(), n <= 8);
    }
    assert_eq!(RegTypeId::try_from(9), Err(()));
}

#[test]
fn codes_have_their_bytes() {
    let codes = [
        (OperationStatus::Read, 0x01u8),
        (OperationStatus::Write, 0x02),
        (OperationStatus::OK_READ, 0x03),
        (OperationStatus::OK_WRITE, 0x04),
        (OperationStatus::ERR_PATH, 0xFF),
        (OperationStatus::ERR_TYPE, 0xFE),
        (OperationStatus::ERR_ACCESS, 0xFD),
        (OperationStatus::ERR_FAILED, 0xFC),
    ];
    for (code, byte) in codes {
        assert_eq!(code.to_wire(), byte);
        assert_eq!(OperationStatus::try_from_wire(byte), Some(code));
    }
    assert_eq!(OperationStatus::try_from_wire(0), None);
    assert_eq!(OperationStatus::try_from_wire(5), None);
    assert_eq!(OperationStatus::try_from_wire(0xFB), None);
    assert!((OperationStatus::ERR_PATH.to_wire() as i8) < 0);
    assert!((OperationStatus::OK_READ.to_wire() as i8) > 0);
}

#[test]
fn little_endian_numbers() {
    assert_eq!(u16_to_le(0x0102), vec![0x02, 0x01]);
    assert_eq!(u32_to_le(0x01020304), vec![0x04, 0x03, 0x02, 0x01]);
    assert_eq!(u16_from_le(&[0x02, 0x01]), 0x0102);
    assert_eq!(u32_from_le(&[0x04, 0x03, 0x02, 0x01]), 0x01020304);
    assert_eq!(u16_to_le(u16::MAX), u16::MAX.to_le_bytes().to_vec());
    assert_eq!(u32_to_le(u32::MAX), u32::MAX.to_le_bytes().to_vec());
    assert_eq!(u32_from_le(&[0xFF; 4]), u32::MAX);
}

#[test]
fn answer_to_a_read_gives_the_value() {
    assert_eq!(pars_answer(&answer(0x03, b"/hr", &[4, 0x78, 0x56, 0x34, 0x12])), Ok(RegisterValue::U32(0x12345678)));
    assert_eq!(pars_answer(&answer(0x03, b"/hr", &[5, 0x34, 0x12])), Ok(RegisterValue::U16(0x1234)));
    assert_eq!(pars_answer(&answer(0x03, b"/hr", &[6, 0x12])), Ok(RegisterValue::U8(0x12)));
    assert_eq!(pars_answer(&answer(0x03, b"/hr", &[1, 0xFE, 0xFF, 0xFF, 0xFF])), Ok(RegisterValue::I32(-2)));
    assert_eq!(pars_answer(&answer(0x03, b"/hr", &[2, 0x00, 0x80])), Ok(RegisterValue::I16(i16::MIN)));
    assert_eq!(pars_answer(&answer(0x03, b"/hr", &[3, 0xFF])), Ok(RegisterValue::I8(-1)));
    assert_eq!(pars_answer(&answer(0x03, b"/hr", &[0])), Ok(RegisterValue::UNIT));
    assert_eq!(
        pars_answer(&answer(0x03, b"/name", &[7, 5, b'h', b'e', b'l', b'l', b'o'])),
        Ok(RegisterValue::STR("hello".to_string()))
    );
    assert_eq!(pars_answer(&answer(0x03, b"/raw", &[8, 3, 1, 2, 3])), Ok(RegisterValue::BYTES(vec![1, 2, 3])));
    assert_eq!(pars_answer(&answer(0x03, b"/raw", &[8, 0])), Ok(RegisterValue::BYTES(vec![])));
}

#[test]
fn answer_with_any_known_code_gives_its_value() {
    for code in [0x02u8, 0x03, 0x04, 0xFF, 0xFE, 0xFD, 0xFC] {
        assert_eq!(pars_answer(&answer(code, b"/ctrl/vis", &[0])), Ok(RegisterValue::UNIT));
        assert_eq!(pars_answer(&answer(code, b"/ctrl/vis", &[6, 1])), Ok(RegisterValue::U8(1)));
        assert_eq!(pars_answer(&answer(code, b"", &[5, 2, 1])), Ok(RegisterValue::U16(258)));
    }
    assert_eq!(pars_answer(&answer(0x01, b"/ctrl/vis", &[])), Ok(RegisterValue::UNIT));
}

#[test]
fn parsing_what_was_encoded_gives_the_value_back() {
    for value in sample_values() {
        let msg = Msg(OperationStatus::Write, "/survey/surname".to_string(), value.clone());
        let bytes = encode(&msg).unwrap();
        assert_eq!(pars_answer(&bytes), Ok(value));
    }
    let msg = Msg(OperationStatus::Read, "/survey/surname".to_string(), RegisterValue::UNIT);
    assert_eq!(pars_answer(&encode(&msg).unwrap()), Ok(RegisterValue::UNIT));
    let msg = Msg(OperationStatus::Write, "/ctrl/vis".to_string(), RegisterValue::from_bool(true));
    assert_eq!(pars_answer(&encode(&msg).unwrap()), Ok(RegisterValue::from_bool(true)));
}

#[test]
fn every_cut_frame_needs_more_data() {
    for value in sample_values() {
        let msg = Msg(OperationStatus::Write, "/ctrl/vis".to_string(), value.clone());
        let bytes = encode(&msg).unwrap();
        for k in 0..bytes.len() {
            assert_eq!(pars_answer(&bytes[..k]), Err(Error::NeedMoreData));
            let mut whole = bytes[..k].to_vec();
            whole.extend_from_slice(&bytes[k..]);
            assert_eq!(pars_answer(&whole), Ok(value.clone()));
        }
    }
    assert_eq!(pars_answer(&[]), Err(Error::NeedMoreData));
    assert_eq!(pars_answer(&[0x8E]), Err(Error::NeedMoreData));
    assert_eq!(pars_answer(&[0x8E, 0x03]), Err(Error::NeedMoreData));
    assert_eq!(pars_answer(&[0x8E, 0x03, 4, b'/', b'h']), Err(Error::NeedMoreData));
    assert_eq!(pars_answer(&answer(0x03, b"/hr", &[])), Err(Error::NeedMoreData));
    assert_eq!(pars_answer(&answer(0x04, b"/hr", &[])), Err(Error::NeedMoreData));
    assert_eq!(pars_answer(&answer(0x03, b"/hr", &[4, 1, 2, 3])), Err(Error::NeedMoreData));
    assert_eq!(pars_answer(&answer(0x03, b"/hr", &[5, 1])), Err(Error::NeedMoreData));
    assert_eq!(pars_answer(&answer(0x03, b"/hr", &[6])), Err(Error::NeedMoreData));
}

#[test]
fn declared_length_beyond_the_buffer_is_no_error() {
    assert_eq!(pars_answer(&answer(0x03, b"/hr", &[7])), Err(Error::NeedMoreData));
    assert_eq!(pars_answer(&answer(0x03, b"/hr", &[7, 3, b'a', b'b'])), Err(Error::NeedMoreData));
    assert_eq!(pars_answer(&answer(0x03, b"/hr", &[8, 1])), Err(Error::NeedMoreData));
    assert_eq!(pars_answer(&answer(0x02, b"/hr", &[8, 255, 0, 0])), Err(Error::NeedMoreData));
    assert_eq!(value_parser(&[5, 0x68, 0x69], RegTypeId::STR), Err(Error::NeedMoreData));
    assert_eq!(value_parser(&[5, 0x68, 0x69], RegTypeId::BYTES), Err(Error::NeedMoreData));
    assert_eq!(value_reader(&[7, 5, 0x68, 0x69]), Err(Error::NeedMoreData));
}

#[test]
fn bytes_behind_the_frame_play_no_part() {
    for value in sample_values() {
        let msg = Msg(OperationStatus::Write, "/a".to_string(), value.clone());
        let mut bytes = encode(&msg).unwrap();
        bytes.extend_from_slice(&[0x8E, 0x03, 9, 0xFF]);
        assert_eq!(pars_answer(&bytes), Ok(value));
    }
    assert_eq!(pars_answer(&answer(0x03, b"/hr", &[4, 1, 2, 3, 4, 5])), Ok(RegisterValue::U32(0x04030201)));
    assert_eq!(pars_answer(&answer(0x03, b"/hr", &[2, 1, 2, 3])), Ok(RegisterValue::I16(0x0201)));
    assert_eq!(pars_answer(&answer(0x03, b"/hr", &[0, 9, 9])), Ok(RegisterValue::UNIT));
    assert_eq!(
        pars_answer(&answer(0x03, b"/n", &[7, 2, b'o', b'k', 0, 0, 0])),
        Ok(RegisterValue::STR("ok".to_string()))
    );
    assert_eq!(pars_answer(&answer(0x01, b"/n", &[42, 42])), Ok(RegisterValue::UNIT));
}

#[test]
fn answer_with_wrong_signature_or_code_is_bad_protocol() {
    let mut bytes = answer(0x03, b"/hr", &[6, 1]);
    bytes[0] = 0x8F;
    assert_eq!(pars_answer(&bytes), Err(Error::BadProtocol));
    assert_eq!(pars_answer(&[0x00]), Err(Error::BadProtocol));
    assert_eq!(pars_answer(&answer(0x77, b"/hr", &[6, 1])), Err(Error::BadProtocol));
    assert_eq!(pars_answer(&answer(0x00, b"/hr", &[6, 1])), Err(Error::BadProtocol));
    assert_eq!(pars_answer(&[0x8E, 0x05]), Err(Error::BadProtocol));
}

#[test]
fn unknown_tag_and_bad_path_are_bad_format() {
    for tag in 9..=255u8 {
        for code in [0x02u8, 0x03, 0x04, 0xFF, 0xFE, 0xFD, 0xFC] {
            assert_eq!(pars_answer(&answer(code, b"/hr", &[tag, 1, 2, 3, 4])), Err(Error::BadFormat));
            assert_eq!(pars_answer(&answer(code, b"/hr", &[tag])), Err(Error::BadFormat));
        }
    }
    assert_eq!(pars_answer(&answer(0x03, &[0xFF], &[6, 1])), Err(Error::BadFormat));
    assert_eq!(pars_answer(&answer(0x01, &[0xC3, 0x28], &[])), Err(Error::BadFormat));
}

#[test]
fn string_that_is_no_text_is_bad_param() {
    assert_eq!(pars_answer(&answer(0x03, b"/hr", &[7, 1, 0xFF])), Err(Error::BadParam));
    assert_eq!(pars_answer(&answer(0x03, b"/hr", &[7, 2, 0xC3, 0x28])), Err(Error::BadParam));
    assert_eq!(pars_answer(&answer(0x03, b"/hr", &[8, 2, 0xC3, 0x28])), Ok(RegisterValue::BYTES(vec![0xC3, 0x28])));
}

#[test]
fn field_parsers_take_one_field_each() {
    let bytes = answer(0x03, b"/hr", &[6, 1, 0xAA]);
    let (rest, ()) = sign_parser(&bytes).unwrap();
    assert_eq!(rest, &bytes[1..]);
    let (rest, op) = op_parser(rest).unwrap();
    assert_eq!(op, OperationStatus::OK_READ);
    let (rest, sz) = name_sz_parser(rest).unwrap();
    assert_eq!(sz, 3);
    let (rest, name) = name_parser(rest, sz).unwrap();
    assert_eq!(name, "/hr");
    let (rest, tag) = value_type(rest).unwrap();
    assert_eq!(tag, RegTypeId::U8);
    let (rest, (tag, content)) = value_parser(rest, tag).unwrap();
    assert_eq!(rest, &[0xAA]);
    assert_eq!(content, &[1]);
    assert_eq!(value_builder(tag, content), Ok(RegisterValue::U8(1)));
    assert_eq!(header_parser(&bytes), Ok((OperationStatus::OK_READ, "/hr".to_string(), 6)));
    assert_eq!(value_reader(&bytes[6..]), Ok((RegisterValue::U8(1), 2)));
}

#[test]
fn value_parser_takes_what_the_type_asks() {
    let i = [3u8, b'a', b'b', b'c', 9, 9];
    assert_eq!(value_parser(&i, RegTypeId::UNIT), Ok((&i[..], (RegTypeId::UNIT, &i[..0]))));
    assert_eq!(value_parser(&i, RegTypeId::U8), Ok((&i[1..], (RegTypeId::U8, &i[..1]))));
    assert_eq!(value_parser(&i, RegTypeId::I8), Ok((&i[1..], (RegTypeId::I8, &i[..1]))));
    assert_eq!(value_parser(&i, RegTypeId::U16), Ok((&i[2..], (RegTypeId::U16, &i[..2]))));
    assert_eq!(value_parser(&i, RegTypeId::I16), Ok((&i[2..], (RegTypeId::I16, &i[..2]))));
    assert_eq!(value_parser(&i, RegTypeId::U32), Ok((&i[4..], (RegTypeId::U32, &i[..4]))));
    assert_eq!(value_parser(&i, RegTypeId::I32), Ok((&i[4..], (RegTypeId::I32, &i[..4]))));
    assert_eq!(value_parser(&i, RegTypeId::STR), Ok((&i[4..], (RegTypeId::STR, &i[1..4]))));
    assert_eq!(value_parser(&i, RegTypeId::BYTES), Ok((&i[4..], (RegTypeId::BYTES, &i[1..4]))));
    assert_eq!(value_parser(&i[..3], RegTypeId::U32), Err(Error::NeedMoreData));
    assert_eq!(value_parser(&i[..1], RegTypeId::U16), Err(Error::NeedMoreData));
    assert_eq!(value_parser(&[], RegTypeId::U8), Err(Error::NeedMoreData));
    assert_eq!(value_parser(&[], RegTypeId::STR), Err(Error::NeedMoreData));
    assert_eq!(value_parser(&[], RegTypeId::UNIT), Ok((&i[..0], (RegTypeId::UNIT, &i[..0]))));
}

#[test]
fn field_parsers_report_what_is_missing() {
    assert_eq!(sign_parser(&[]), Err(Error::NeedMoreData));
    assert_eq!(sign_parser(&[0x00]), Err(Error::BadProtocol));
    assert_eq!(op_parser(&[]), Err(Error::NeedMoreData));
    assert_eq!(op_parser(&[0x55]), Err(Error::BadProtocol));
    assert_eq!(name_sz_parser(&[]), Err(Error::NeedMoreData));
    assert_eq!(name_parser(b"/h", 3), Err(Error::NeedMoreData));
    assert_eq!(name_parser(&[0x80, 0x80], 2), Err(Error::BadFormat));
    assert_eq!(value_type(&[]), Err(Error::NeedMoreData));
    assert_eq!(value_type(&[42]), Err(Error::BadFormat));
    assert_eq!(value_type(&[9]), Err(Error::BadFormat));
    assert_eq!(header_parser(&[0x8E, 0x03]), Err(Error::NeedMoreData));
    assert_eq!(value_reader(&[]), Err(Error::NeedMoreData));
}

#[test]
fn utf8_is_checked_not_assumed() {
    assert_eq!(utf8_string(b"/ctrl/vis"), Some("/ctrl/vis".to_string()));
    assert_eq!(utf8_string("♥".as_bytes()), Some("♥".to_string()));
    assert_eq!(utf8_string(&[]), Some(String::new()));
    assert_eq!(utf8_string(&[0xE2, 0x99]), None);
    assert_eq!(utf8_string(&[0xED, 0xA0, 0x80]), None);
    assert_eq!(utf8_string(&[0xC0, 0x80]), None);
}
