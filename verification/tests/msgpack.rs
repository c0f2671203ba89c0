// Payloads: what the writer writes, what the reader reads and what it refuses.

use peios::abi::Span;
use peios::error::Errno;
use peios::msgpack::cursor::{value_step, Cursor, FloatBits};
use peios::msgpack::reader::{
    peios_mp_peek, peios_mp_read_array, peios_mp_read_bin, peios_mp_read_bool, peios_mp_read_ext, peios_mp_read_float,
    peios_mp_read_int, peios_mp_read_map, peios_mp_read_nil, peios_mp_read_str, peios_mp_read_uint, peios_mp_reader,
    peios_mp_reader_init, peios_mp_reader_remaining, peios_mp_skip, peios_mp_validate, MP_BIN, MP_EXT, MP_FLOAT, MP_INT,
    MP_MAP, MP_STR,
};
use peios::msgpack::writer::{
    peios_mp_write_array, peios_mp_write_bin, peios_mp_write_bool, peios_mp_write_ext, peios_mp_write_float,
    peios_mp_write_int, peios_mp_write_map, peios_mp_write_nil, peios_mp_write_raw, peios_mp_write_str,
    peios_mp_write_uint, peios_mp_writer, peios_mp_writer_bytes, peios_mp_writer_error, peios_mp_writer_new,
    peios_mp_writer_reset,
};

const DEFAULT_DEPTH: u32 = 32;

fn enc(f: impl FnOnce(&mut peios_mp_writer)) -> Vec<u8> {
    let mut w = peios_mp_writer_new();
    f(&mut w);
    peios_mp_writer_bytes(&mut w).expect("encode failed").to_vec()
}

fn reader_over(buf: &[u8]) -> peios_mp_reader<'_> {
    peios_mp_reader_init(Span::At(buf))
}

fn valid(buf: &[u8]) -> bool {
    peios_mp_validate(Span::At(buf), DEFAULT_DEPTH).is_ok()
}

#[test]
fn scalars_roundtrip() {
    // uint
    let b = enc(|w| peios_mp_write_uint(w, 300));
    assert_eq!(b, vec![0xcd, 0x01, 0x2c]); // uint16 big-endian
    assert_eq!(peios_mp_validate(Span::At(&b), DEFAULT_DEPTH), Ok(()));
    let mut r = reader_over(&b);
    assert_eq!(peios_mp_peek(&r), Ok(MP_INT));
    assert_eq!(peios_mp_read_uint(&mut r), Ok(300));
    assert_eq!(peios_mp_reader_remaining(&r), 0);

    // negative int: smallest form
    assert_eq!(enc(|w| peios_mp_write_int(w, -1)), vec![0xff]);
    assert_eq!(enc(|w| peios_mp_write_int(w, -33)), vec![0xd0, 0xdf]);
    // positive fixint
    assert_eq!(enc(|w| peios_mp_write_int(w, 7)), vec![0x07]);

    // bool / nil
    assert_eq!(enc(|w| peios_mp_write_bool(w, true)), vec![0xc3]);
    assert_eq!(enc(|w| peios_mp_write_nil(w)), vec![0xc0]);
}

#[test]
fn integers_of_every_width_read_back() {
    for v in [0u64, 127, 128, 255, 256, 65535, 65536, u32::MAX as u64, u32::MAX as u64 + 1, u64::MAX] {
        let b = enc(|w| peios_mp_write_uint(w, v));
        assert_eq!(peios_mp_read_uint(&mut reader_over(&b)), Ok(v));
    }
    for v in [0i64, -1, -32, -33, -128, -129, -32768, -32769, i32::MIN as i64, i32::MIN as i64 - 1, i64::MIN, i64::MAX] {
        let b = enc(|w| peios_mp_write_int(w, v));
        assert_eq!(peios_mp_read_int(&mut reader_over(&b)), Ok(v));
    }
}

#[test]
fn float_roundtrip() {
    let b = enc(|w| peios_mp_write_float(w, 1.5f64.to_bits()));
    assert_eq!(b[0], 0xcb);
    let mut r = reader_over(&b);
    assert_eq!(peios_mp_peek(&r), Ok(MP_FLOAT));
    match peios_mp_read_float(&mut r) {
        Ok(FloatBits::Double(bits)) => assert_eq!(f64::from_bits(bits), 1.5),
        _ => panic!("expected a double"),
    }
}

#[test]
fn str_and_bin_roundtrip() {
    let s = b"hello";
    let b = enc(|w| peios_mp_write_str(w, Span::At(s)));
    assert_eq!(b[0], 0xa5); // fixstr len 5
    let mut r = reader_over(&b);
    assert_eq!(peios_mp_peek(&r), Ok(MP_STR));
    let out = peios_mp_read_str(&mut r).unwrap();
    assert_eq!(out.len(), 5);
    assert_eq!(out, s);

    let blob = [0u8, 1, 2, 0xff];
    let b = enc(|w| peios_mp_write_bin(w, Span::At(&blob)));
    assert_eq!(b[0], 0xc4); // bin8
    let mut r = reader_over(&b);
    assert_eq!(peios_mp_peek(&r), Ok(MP_BIN));
    let out = peios_mp_read_bin(&mut r).unwrap();
    assert_eq!(out.len(), 4);
    assert_eq!(out, &blob);
}

#[test]
fn read_str_rejects_invalid_utf8_without_consuming() {
    let b = [0xa1u8, 0xff];
    let mut r = reader_over(&b);
    assert_eq!(peios_mp_read_str(&mut r), Err(Errno::Inval));
    assert_eq!(peios_mp_reader_remaining(&r), b.len());
}

#[test]
fn map_roundtrip_and_decode() {
    // {"id": 42, "ok": true}
    let b = enc(|w| {
        peios_mp_write_map(w, 2);
        peios_mp_write_str(w, Span::At(b"id"));
        peios_mp_write_uint(w, 42);
        peios_mp_write_str(w, Span::At(b"ok"));
        peios_mp_write_bool(w, true);
    });
    assert!(valid(&b));
    let mut r = reader_over(&b);
    assert_eq!(peios_mp_peek(&r), Ok(MP_MAP));
    assert_eq!(peios_mp_read_map(&mut r), Ok(2));
    assert_eq!(peios_mp_read_str(&mut r).unwrap().len(), 2);
    assert_eq!(peios_mp_read_uint(&mut r), Ok(42));
    // skip the key of the next pair
    assert_eq!(peios_mp_skip(&mut r), Ok(()));
    assert_eq!(peios_mp_read_bool(&mut r), Ok(true));
    assert_eq!(peios_mp_reader_remaining(&r), 0);
}

#[test]
fn nested_array_and_skip() {
    // [1, [2, 3], "x"]
    let b = enc(|w| {
        peios_mp_write_array(w, 3);
        peios_mp_write_uint(w, 1);
        peios_mp_write_array(w, 2);
        peios_mp_write_uint(w, 2);
        peios_mp_write_uint(w, 3);
        peios_mp_write_str(w, Span::At(b"x"));
    });
    assert!(valid(&b));
    let mut r = reader_over(&b);
    assert_eq!(peios_mp_read_array(&mut r), Ok(3));
    assert_eq!(peios_mp_read_uint(&mut r), Ok(1));
    // skip the inner array as one value
    assert_eq!(peios_mp_skip(&mut r), Ok(()));
    assert_eq!(peios_mp_read_str(&mut r).unwrap().len(), 1);
    assert_eq!(peios_mp_reader_remaining(&r), 0);
}

#[test]
fn ext_roundtrip() {
    let data = [9u8, 8, 7];
    let b = enc(|w| peios_mp_write_ext(w, -1, Span::At(&data)));
    assert_eq!(b[0], 0xc7); // ext8 (len 3 is not a fixext size)
    let mut r = reader_over(&b);
    assert_eq!(peios_mp_peek(&r), Ok(MP_EXT));
    let (ty, out) = peios_mp_read_ext(&mut r).unwrap();
    assert_eq!(out.len(), 3);
    assert_eq!(ty, -1);
    assert_eq!(out, &data);
    // fixext sizes pick the fixext lead bytes.
    assert_eq!(enc(|w| peios_mp_write_ext(w, 5, Span::At(&[1u8])))[0], 0xd4);
}

#[test]
fn validate_rejects_malformed() {
    // empty buffer
    assert_eq!(peios_mp_validate(Span::Null(0), DEFAULT_DEPTH), Err(Errno::Inval));
    // reserved 0xc1
    assert!(!valid(&[0xc1u8]));
    // trailing garbage after a complete value
    assert!(!valid(&[0x01u8, 0x02]));
    // truncated str (fixstr len 5, only 1 byte follows)
    assert!(!valid(&[0xa5u8, b'h']));
    // invalid UTF-8 in a str
    assert!(!valid(&[0xa1u8, 0xff]));
    // a bin with the same bytes is fine
    assert!(valid(&[0xc4u8, 0x01, 0xff]));
}

#[test]
fn validate_depth_limit() {
    // [[[1]]]: descending at depth 3 needs a limit of at least 4.
    let b = enc(|w| {
        peios_mp_write_array(w, 1);
        peios_mp_write_array(w, 1);
        peios_mp_write_array(w, 1);
        peios_mp_write_uint(w, 1);
    });
    assert_eq!(peios_mp_validate(Span::At(&b), 4), Ok(()));
    assert_eq!(peios_mp_validate(Span::At(&b), 3), Err(Errno::Inval));
}

#[test]
fn empty_writer_is_invalid() {
    let mut w = peios_mp_writer_new();
    assert_eq!(peios_mp_writer_bytes(&mut w), Err(Errno::Inval)); // empty payload
}

#[test]
fn underfilled_map_is_caught_at_bytes() {
    let mut w = peios_mp_writer_new();
    peios_mp_write_map(&mut w, 2); // promises 2 pairs
    peios_mp_write_str(&mut w, Span::At(b"k"));
    peios_mp_write_uint(&mut w, 1); // only one pair written
    assert!(peios_mp_writer_bytes(&mut w).is_err());
    assert_eq!(peios_mp_writer_error(&w), Some(Errno::Inval));
}

#[test]
fn non_utf8_str_latches() {
    let mut w = peios_mp_writer_new();
    let bad = [0xffu8, 0xfe];
    peios_mp_write_str(&mut w, Span::At(&bad));
    assert_eq!(peios_mp_writer_error(&w), Some(Errno::Inval));
    // Nothing is written any more, until the writer is reset.
    peios_mp_write_uint(&mut w, 1);
    assert!(peios_mp_writer_bytes(&mut w).is_err());
    peios_mp_writer_reset(&mut w);
    peios_mp_write_uint(&mut w, 1);
    assert_eq!(peios_mp_writer_bytes(&mut w).unwrap(), &[1u8]);
}

#[test]
fn raw_escape_hatch() {
    // {"a":1} as bytes.
    let raw = [0x81u8, 0xa1, b'a', 0x01];
    let b = enc(|w| peios_mp_write_raw(w, Span::At(&raw)));
    assert_eq!(b, raw);
    assert!(valid(&b));
}

#[test]
fn reader_rejects_null_buffer_with_nonzero_length() {
    let mut r = peios_mp_reader_init(Span::Null(1));
    assert_eq!(peios_mp_peek(&r), Err(Some(Errno::Inval)));
    assert_eq!(peios_mp_reader_remaining(&r), 0);
    assert_eq!(peios_mp_read_nil(&mut r), Err(Errno::Inval));
}

#[test]
fn reader_rejects_truncated_str_and_leaves_cursor_put() {
    // fixstr promising 5 bytes, only 2 present.
    let buf = [0xa5u8, b'h', b'i'];
    let mut r = reader_over(&buf);
    assert_eq!(peios_mp_peek(&r), Ok(MP_STR));
    assert_eq!(peios_mp_read_str(&mut r), Err(Errno::Inval));
    assert_eq!(peios_mp_reader_remaining(&r), buf.len());
    assert_eq!(peios_mp_peek(&r), Ok(MP_STR));
}

#[test]
fn reader_rejects_oversized_length_prefix_without_reading_oob() {
    // str32 declaring ~4 GiB of payload with none present.
    let buf = [0xdbu8, 0xff, 0xff, 0xff, 0xff];
    let mut r = reader_over(&buf);
    assert!(peios_mp_read_str(&mut r).is_err());
    assert_eq!(peios_mp_reader_remaining(&r), buf.len());
    // Same for an oversized bin32.
    let bin = [0xc6u8, 0xff, 0xff, 0xff, 0xff];
    let mut rb = reader_over(&bin);
    assert!(peios_mp_read_bin(&mut rb).is_err());
    assert_eq!(peios_mp_reader_remaining(&rb), bin.len());
}

#[test]
fn reader_rejects_truncated_bin_and_ext() {
    // bin8 len 16, one byte present.
    let bin = [0xc4u8, 0x10, 0x00];
    let mut rb = reader_over(&bin);
    assert!(peios_mp_read_bin(&mut rb).is_err());
    assert_eq!(peios_mp_reader_remaining(&rb), bin.len());
    // ext8 len 4, only type + 1 present.
    let ext = [0xc7u8, 0x04, 0x01, 0xaa];
    let mut re = reader_over(&ext);
    assert!(peios_mp_read_ext(&mut re).is_err());
    assert_eq!(peios_mp_reader_remaining(&re), ext.len());
}

#[test]
fn max_width_headers_decode_when_well_formed() {
    // str16 length 5.
    let s16 = [0xdau8, 0x00, 0x05, b'h', b'e', b'l', b'l', b'o'];
    let mut r = reader_over(&s16);
    let out = peios_mp_read_str(&mut r).unwrap();
    assert_eq!(out.len(), 5);
    assert_eq!(out, b"hello");

    // array32 of one element.
    let a32 = [0xddu8, 0x00, 0x00, 0x00, 0x01, 0x07];
    let mut ra = reader_over(&a32);
    assert_eq!(peios_mp_read_array(&mut ra), Ok(1));
    assert_eq!(peios_mp_read_uint(&mut ra), Ok(7));

    // map32 of one pair.
    let m32 = [0xdfu8, 0x00, 0x00, 0x00, 0x01, 0x07, 0xc0];
    let mut rm = reader_over(&m32);
    assert_eq!(peios_mp_read_map(&mut rm), Ok(1));
    assert_eq!(peios_mp_read_uint(&mut rm), Ok(7));
    assert_eq!(peios_mp_read_nil(&mut rm), Ok(()));
    assert_eq!(peios_mp_reader_remaining(&rm), 0);
}

#[test]
fn array_header_consumed_but_missing_elements_fail_on_read() {
    // array32 promising 2 elements with none present.
    let buf = [0xddu8, 0x00, 0x00, 0x00, 0x02];
    let mut r = reader_over(&buf);
    assert_eq!(peios_mp_read_array(&mut r), Ok(2));
    assert_eq!(peios_mp_reader_remaining(&r), 0);
    assert!(peios_mp_read_uint(&mut r).is_err());
    assert!(!valid(&buf));
}

#[test]
fn skip_handles_deep_nesting_and_restores_on_truncation() {
    // 50 nested single-element arrays around a fixint.
    let mut deep = vec![0x91u8; 50];
    deep.push(0x00);
    let mut r = reader_over(&deep);
    assert_eq!(peios_mp_skip(&mut r), Ok(()));
    assert_eq!(peios_mp_reader_remaining(&r), 0);

    let truncated = [0x91u8, 0x91];
    let mut rt = reader_over(&truncated);
    assert!(peios_mp_skip(&mut rt).is_err());
    assert_eq!(peios_mp_reader_remaining(&rt), truncated.len());
}

#[test]
fn read_int_rejects_out_of_range_and_restores_pos() {
    // u64::MAX does not fit i64.
    let buf = [0xcfu8, 0xff, 0xff, 0xff, 0xff, 0xff, 0xff, 0xff, 0xff];
    let mut r = reader_over(&buf);
    assert!(peios_mp_read_int(&mut r).is_err());
    assert_eq!(peios_mp_reader_remaining(&r), buf.len());
    assert_eq!(peios_mp_read_uint(&mut r), Ok(u64::MAX));
}

#[test]
fn reserved_and_empty_reads_fail() {
    // 0xc1 is reserved.
    let bad = [0xc1u8];
    let mut r = reader_over(&bad);
    assert!(peios_mp_peek(&r).is_err());
    assert!(peios_mp_read_uint(&mut r).is_err());
    // Empty buffer.
    let empty: [u8; 0] = [];
    let mut re = reader_over(&empty);
    assert!(peios_mp_peek(&re).is_err());
    assert!(peios_mp_read_nil(&mut re).is_err());
}

#[test]
fn a_failed_read_stops_where_the_value_does() {
    // Nothing of the kind starts here: the cursor stays.
    let mut cur = Cursor { buf: &[0xc0, 0xc0], pos: 1 };
    assert_eq!((cur.read_int(), cur.pos), (None, 1));
    assert_eq!((cur.try_read_str(), cur.pos), (None, 1));
    assert_eq!((cur.try_read_bin(), cur.pos), (None, 1));
    assert_eq!((cur.try_read_ext(), cur.pos), (None, 1));
    // Cut short behind the lead byte.
    let mut int = Cursor { buf: &[0xcd, 0x01], pos: 0 };
    assert_eq!((int.read_int(), int.pos), (None, 1));
    // Cut short behind the length field, and behind the type.
    let mut string = Cursor { buf: &[0xda, 0x00, 0x05, b'a'], pos: 0 };
    assert_eq!((string.try_read_str(), string.pos), (None, 3));
    let mut bin = Cursor { buf: &[0xc4, 0x05, 0x00], pos: 0 };
    assert_eq!((bin.try_read_bin(), bin.pos), (None, 2));
    let mut ext = Cursor { buf: &[0xd5, 0x07, 0x00], pos: 0 };
    assert_eq!((ext.try_read_ext(), ext.pos), (None, 2));
    // A step passes the type of an `ext` only together with its data.
    let mut short = Cursor { buf: &[0xc7, 0x03, 0x01], pos: 0 };
    assert_eq!((value_step(&mut short), short.pos), (None, 2));
    let mut fixed = Cursor { buf: &[0xd5, 0x07, 0x00], pos: 0 };
    assert_eq!((value_step(&mut fixed), fixed.pos), (None, 1));
    // The reserved lead byte is passed by a step, and so is text that is no UTF-8.
    let mut reserved = Cursor { buf: &[0xc1], pos: 0 };
    assert_eq!((value_step(&mut reserved), reserved.pos), (None, 1));
    let mut wrong = Cursor { buf: &[0xa1, 0xff, 0xc0], pos: 0 };
    assert_eq!((value_step(&mut wrong), wrong.pos), (None, 2));
}
