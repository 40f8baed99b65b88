use isocore::decoder::Decoder;
use isocore::encoder::Encoder;
use isocore::ledger::WireType;
use isocore::types::{Error, Tag};
use isocore::value::{decode_val, decode_val_from_decoder, encode_val, WireVal};

fn s(text: &str) -> String {
    text.to_string()
}

fn show(r: &Result<WireVal, Error>) -> String {
    format!("{:?}", r)
}

fn ok(v: WireVal) -> String {
    show(&Ok(v))
}

fn encoded(v: &WireVal) -> Vec<u8> {
    let mut enc = Encoder::new();
    encode_val(v, &mut enc).expect("encode");
    enc.into_bytes()
}

#[test]
fn encode_scalars_exact_bytes() {
    assert_eq!(encoded(&WireVal::Bool(true)), vec![0x01, 0x01]);
    assert_eq!(encoded(&WireVal::U32(7)), vec![0x07, 7, 0, 0, 0]);
    assert_eq!(encoded(&WireVal::S8(-1)), vec![0x02, 0xFF]);
    assert_eq!(encoded(&WireVal::Char('A')), vec![0x07, 65, 0, 0, 0]);
    assert_eq!(encoded(&WireVal::F32Bits(1.5f32.to_bits())), {
        let mut v = vec![0x0A];
        v.extend_from_slice(&1.5f32.to_bits().to_le_bytes());
        v
    });
    assert_eq!(encoded(&WireVal::Str(s("hi"))), vec![0x10, 2, 0, 0, 0, b'h', b'i']);
}

#[test]
fn encode_containers_as_lists() {
    let items = || vec![WireVal::U8(1), WireVal::Str(s("a"))];
    let expected = vec![0x20, 8, 0, 0, 0, 0x03, 1, 0x10, 1, 0, 0, 0, b'a'];
    assert_eq!(encoded(&WireVal::List(items())), expected);
    assert_eq!(encoded(&WireVal::Tuple(items())), expected);
    assert_eq!(encoded(&WireVal::Record(items())), expected);
    assert_eq!(
        encoded(&WireVal::List(vec![WireVal::List(vec![])])),
        vec![0x20, 5, 0, 0, 0, 0x20, 0, 0, 0, 0]
    );
    assert_eq!(
        encoded(&WireVal::Flags(vec![s("x"), s("y")])),
        vec![0x20, 12, 0, 0, 0, 0x10, 1, 0, 0, 0, b'x', 0x10, 1, 0, 0, 0, b'y']
    );
}

#[test]
fn encode_matches_the_encoder_calls() {
    let mut direct = Encoder::new();
    {
        let mut l = direct.list().unwrap();
        l.u16(300).unwrap();
        l.str("z").unwrap();
        l.finish().unwrap();
    }
    let mut via = Encoder::new();
    encode_val(&WireVal::List(vec![WireVal::U16(300), WireVal::Str(s("z"))]), &mut via).unwrap();
    assert_eq!(via.as_bytes(), direct.as_bytes());
    assert!(via.flush().is_ok());
}

#[test]
fn encode_refuses_handles() {
    for v in [WireVal::Resource, WireVal::Future, WireVal::Stream, WireVal::ErrorContext] {
        let mut enc = Encoder::new();
        assert_eq!(encode_val(&v, &mut enc), Err(Error::Malformed));
        assert!(enc.as_bytes().is_empty());
    }
    let mut enc = Encoder::new();
    assert_eq!(encode_val(&WireVal::List(vec![WireVal::U8(1), WireVal::Stream]), &mut enc), Err(Error::Malformed));
    // The list is closed over the item written before the failure.
    assert_eq!(enc.as_bytes(), &[0x20, 2, 0, 0, 0, 0x03, 1]);
    assert!(enc.flush().is_ok());
}

#[test]
fn nested_failure_closes_every_list() {
    let mut enc = Encoder::new();
    enc.u8(7).unwrap();
    let v = WireVal::Tuple(vec![WireVal::List(vec![WireVal::Bool(true), WireVal::Future]), WireVal::U8(9)]);
    assert_eq!(encode_val(&v, &mut enc), Err(Error::Malformed));
    assert_eq!(enc.as_bytes(), &[0x03, 7, 0x20, 7, 0, 0, 0, 0x20, 2, 0, 0, 0, 0x01, 1]);
    assert!(enc.flush().is_ok());
}

fn roundtrip(v: WireVal, ty: WireType) {
    let bytes = encoded(&v);
    assert_eq!(show(&decode_val(&bytes, &ty)), ok(v));
}

#[test]
fn decode_reads_back_what_was_written() {
    roundtrip(WireVal::Bool(false), WireType::Bool);
    roundtrip(WireVal::U8(200), WireType::U8);
    roundtrip(WireVal::S8(-5), WireType::S8);
    roundtrip(WireVal::U16(65535), WireType::U16);
    roundtrip(WireVal::S16(-300), WireType::S16);
    roundtrip(WireVal::U32(4_000_000_000), WireType::U32);
    roundtrip(WireVal::S32(-70000), WireType::S32);
    roundtrip(WireVal::U64(u64::MAX), WireType::U64);
    roundtrip(WireVal::S64(i64::MIN), WireType::S64);
    roundtrip(WireVal::F32Bits((-2.25f32).to_bits()), WireType::Float32);
    roundtrip(WireVal::F64Bits(3.5f64.to_bits()), WireType::Float64);
    roundtrip(WireVal::Char('λ'), WireType::Char);
    roundtrip(WireVal::Char('\u{10FFFF}'), WireType::Char);
    roundtrip(WireVal::Str(s("héllo")), WireType::String);
    roundtrip(WireVal::List(vec![]), WireType::List(Box::new(WireType::U8)));
    roundtrip(WireVal::Flags(vec![s("read"), s("write")]), WireType::Flags(vec![s("read"), s("write")]));
    roundtrip(WireVal::Flags(vec![]), WireType::Flags(vec![]));
}

#[test]
fn decode_refuses_invalid_chars() {
    let surrogate = [0x07, 0x00, 0xD8, 0x00, 0x00];
    assert_eq!(show(&decode_val(&surrogate, &WireType::Char)), show(&Err(Error::Malformed)));
    let too_big = [0x07, 0x00, 0x00, 0x11, 0x00];
    assert_eq!(show(&decode_val(&too_big, &WireType::Char)), show(&Err(Error::Malformed)));
    let fine = [0x07, 0xFF, 0xD7, 0x00, 0x00];
    assert_eq!(show(&decode_val(&fine, &WireType::Char)), ok(WireVal::Char('\u{D7FF}')));
}

#[test]
fn decode_refuses_non_empty_lists() {
    let bytes = encoded(&WireVal::List(vec![WireVal::U8(1)]));
    assert_eq!(show(&decode_val(&bytes, &WireType::List(Box::new(WireType::U8)))), show(&Err(Error::Malformed)));
    let bad_item = [0x20, 1, 0, 0, 0, 0x7F];
    assert_eq!(show(&decode_val(&bad_item, &WireType::List(Box::new(WireType::U8)))), show(&Err(Error::InvalidTag(0x7F))));
}

#[test]
fn decode_refuses_unsupported_types_without_reading() {
    let bytes = encoded(&WireVal::U8(1));
    for ty in [
        WireType::Record(vec![]),
        WireType::Tuple(vec![]),
        WireType::Variant(vec![]),
        WireType::Enum(vec![]),
        WireType::Own,
        WireType::Borrow,
        WireType::Stream,
    ] {
        let mut dec = Decoder::new(&bytes);
        assert_eq!(show(&decode_val_from_decoder(&mut dec, &ty)), show(&Err(Error::Malformed)));
        assert_eq!(dec.pos(), 0);
    }
}

#[test]
fn decode_option_and_result_read_a_value_and_refuse_it() {
    let bytes = encoded(&WireVal::U8(1));
    let mut dec = Decoder::new(&bytes);
    assert_eq!(show(&decode_val_from_decoder(&mut dec, &WireType::Option(Box::new(WireType::U8)))), show(&Err(Error::TypeMismatch)));
    assert_eq!(dec.pos(), 2);
    let ty = WireType::Result { ok: None, err: None };
    assert_eq!(show(&decode_val(&bytes, &ty)), show(&Err(Error::TypeMismatch)));
    assert_eq!(show(&decode_val(&[], &ty)), show(&Err(Error::Pending(1))));
}

#[test]
fn decode_errors_of_the_reader() {
    let bytes = encoded(&WireVal::U8(1));
    assert_eq!(show(&decode_val(&bytes, &WireType::Bool)), show(&Err(Error::TypeMismatch)));
    assert_eq!(show(&decode_val(&[0x07, 1, 2], &WireType::U32)), show(&Err(Error::Pending(2))));
    let flags_with_number = encoded(&WireVal::List(vec![WireVal::Str(s("a")), WireVal::U8(3)]));
    assert_eq!(show(&decode_val(&flags_with_number, &WireType::Flags(vec![]))), show(&Err(Error::TypeMismatch)));
    let bad_utf8 = [0x10, 1, 0, 0, 0, 0xFF];
    assert_eq!(show(&decode_val(&bad_utf8, &WireType::String)), show(&Err(Error::InvalidUtf8)));
    assert_eq!(Tag::from_u8(0x20), Some(Tag::List));
}

#[test]
fn decode_moves_past_exactly_one_value() {
    let mut enc = Encoder::new();
    encode_val(&WireVal::Str(s("ab")), &mut enc).unwrap();
    encode_val(&WireVal::U16(9), &mut enc).unwrap();
    let bytes = enc.into_bytes();
    let mut dec = Decoder::new(&bytes);
    assert_eq!(show(&decode_val_from_decoder(&mut dec, &WireType::String)), ok(WireVal::Str(s("ab"))));
    assert_eq!(show(&decode_val_from_decoder(&mut dec, &WireType::U16)), ok(WireVal::U16(9)));
    assert_eq!(dec.remaining(), 0);
}
