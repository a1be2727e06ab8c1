//! The number codec.
use rpn_expr::number::{
    decode_f64, decode_i64, decode_u64, encode_f64, encode_i64, encode_u64, UnexpectedEof,
};

#[test]
fn unsigned_integers_are_big_endian() {
    let mut buf = Vec::new();
    encode_u64(&mut buf, 0x0102_0304_0506_0708);
    assert_eq!(buf, vec![1, 2, 3, 4, 5, 6, 7, 8]);
    assert_eq!(decode_u64(&buf), Ok(0x0102_0304_0506_0708));
    assert_eq!(decode_u64(&[0xff; 8]), Ok(u64::MAX));
    assert_eq!(decode_u64(&[0; 8]), Ok(0));
}

#[test]
fn signed_integers_are_shifted() {
    let cases: Vec<(i64, Vec<u8>)> = vec![
        (i64::MIN, vec![0, 0, 0, 0, 0, 0, 0, 0]),
        (-1, vec![0x7f, 0xff, 0xff, 0xff, 0xff, 0xff, 0xff, 0xff]),
        (0, vec![0x80, 0, 0, 0, 0, 0, 0, 0]),
        (7, vec![0x80, 0, 0, 0, 0, 0, 0, 7]),
        (i64::MAX, vec![0xff; 8]),
    ];
    for (v, bytes) in cases {
        let mut buf = Vec::new();
        encode_i64(&mut buf, v);
        assert_eq!(buf, bytes);
        assert_eq!(decode_i64(&bytes), Ok(v));
    }
}

#[test]
fn doubles_keep_their_order() {
    let cases: Vec<(f64, Vec<u8>)> = vec![
        (-1.5, vec![0x40, 0x07, 0xff, 0xff, 0xff, 0xff, 0xff, 0xff]),
        (0.0, vec![0x80, 0, 0, 0, 0, 0, 0, 0]),
        (1.0, vec![0xbf, 0xf0, 0, 0, 0, 0, 0, 0]),
    ];
    for (v, bytes) in &cases {
        let mut buf = Vec::new();
        encode_f64(&mut buf, v.to_bits());
        assert_eq!(&buf, bytes);
        assert_eq!(decode_f64(bytes), Ok(v.to_bits()));
    }
    assert!(cases[0].1 < cases[1].1);
    assert!(cases[1].1 < cases[2].1);
}

#[test]
fn doubles_round_trip() {
    for v in [100.12f64, -100.12, f64::MAX, f64::MIN, f64::INFINITY, -0.0] {
        let mut buf = Vec::new();
        encode_f64(&mut buf, v.to_bits());
        assert_eq!(decode_f64(&buf), Ok(v.to_bits()));
    }
}

#[test]
fn short_input_is_refused() {
    for len in 0..8 {
        let data = vec![0xff; len];
        assert_eq!(decode_u64(&data), Err(UnexpectedEof));
        assert_eq!(decode_i64(&data), Err(UnexpectedEof));
        assert_eq!(decode_f64(&data), Err(UnexpectedEof));
    }
}

#[test]
fn bytes_around_a_number_do_not_matter() {
    let mut buf = vec![9];
    encode_u64(&mut buf, 258);
    assert_eq!(buf, vec![9, 0, 0, 0, 0, 0, 0, 1, 2]);
    buf.push(77);
    assert_eq!(decode_u64(&buf[1..]), Ok(258));
    assert_eq!(decode_i64(&buf[1..]), Ok(i64::MIN + 258));
    assert_eq!(decode_f64(&buf[1..]), Ok(u64::MAX - 258));
}
