use tdx::internal::helpers::{
    decode_big5, decode_gbk, decode_varint, encode_big5, encode_gbk, get_datetime, get_datetime_from_u32,
    get_time, hex_string_to_bytes as hex_to_bytes_checked, time_from_int, utf8_to_gbk, v1_utf8_to_gbk,
    zlib_compress, zlib_decompress,
};
use tdx::internal::hex::{bytes_to_hex_string, hex_string_to_bytes};
use tdx::quotes::base_consts::QuotesError;

/// The protocol's variable-length encoding of an integer.
fn varint(v: i32) -> Vec<u8> {
    let neg = v < 0;
    let mut a = (v as i64).unsigned_abs();
    let mut first = (a & 0x3f) as u8;
    if neg {
        first |= 0x40;
    }
    a >>= 6;
    if a > 0 {
        first |= 0x80;
    }
    let mut out = vec![first];
    while a > 0 {
        let mut b = (a & 0x7f) as u8;
        a >>= 7;
        if a > 0 {
            b |= 0x80;
        }
        out.push(b);
    }
    out
}

#[test]
fn varint_small_positive_and_negative() {
    let mut pos = 0;
    assert_eq!(decode_varint(&[0x05], &mut pos), Ok(5));
    assert_eq!(pos, 1);
    let mut pos = 0;
    assert_eq!(decode_varint(&[0x45], &mut pos), Ok(-5));
    assert_eq!(pos, 1);
}

#[test]
fn varint_multi_byte() {
    let mut pos = 0;
    assert_eq!(decode_varint(&[0x81, 0x01], &mut pos), Ok(65));
    assert_eq!(pos, 2);
    for v in [0, 1, 63, 64, 1000, -1000, 123456, -123456, 8191, 8192, 1 << 20, i32::MAX, -i32::MAX] {
        let bytes = varint(v);
        let mut pos = 0;
        assert_eq!(decode_varint(&bytes, &mut pos), Ok(v), "value {v}");
        assert_eq!(pos, bytes.len());
    }
}

#[test]
fn varint_errors() {
    let mut pos = 0;
    assert_eq!(decode_varint(&[], &mut pos), Err(QuotesError::BufferUnderflow));
    assert_eq!(pos, 0);
    let mut pos = 0;
    assert_eq!(decode_varint(&[0x81], &mut pos), Err(QuotesError::BufferUnderflow));
    assert_eq!(pos, 1);
}

#[test]
fn time_of_day_from_minutes() {
    let mut pos = 0;
    assert_eq!(get_time(&[0x3a, 0x02], &mut pos), Ok((9, 30)));
    assert_eq!(pos, 2);
    let mut pos = 1;
    assert_eq!(get_time(&[0x3a, 0x02], &mut pos), Err(QuotesError::BufferUnderflow));
    assert_eq!(pos, 1);
}

#[test]
fn packed_dates() {
    assert_eq!(get_datetime_from_u32(9, 20230101, 0), (2023, 1, 1, 15, 0));
    assert_eq!(get_datetime_from_u32(0, 19 * 2048 + 1231, 570), (2023, 12, 31, 9, 30));
    let mut data = Vec::new();
    data.extend_from_slice(&20240315u32.to_le_bytes());
    let mut pos = 0;
    assert_eq!(get_datetime(9, &data, &mut pos), Ok((2024, 3, 15, 15, 0)));
    assert_eq!(pos, 4);
    let mut pos = 2;
    assert_eq!(get_datetime(9, &data, &mut pos), Err(QuotesError::BufferUnderflow));
}

#[test]
fn packed_time_text() {
    assert_eq!(time_from_int(9300000), "09:30:00.000");
    assert_eq!(time_from_int(14595999), "14:59:35.994");
    assert_eq!(time_from_int(9600000), "10:00:36.000");
}

#[test]
fn hex_text_of_bytes() {
    assert_eq!(bytes_to_hex_string(&[0x01, 0x0a, 0xff]), "01 0A FF");
    assert_eq!(bytes_to_hex_string(&[]), "");
    assert_eq!(hex_string_to_bytes("01 0a\tFF"), Some(vec![1, 10, 255]));
    assert_eq!(hex_string_to_bytes("abc"), None);
    assert_eq!(hex_string_to_bytes("zz"), None);
}

#[test]
fn hex_text_roundtrip() {
    let bytes: Vec<u8> = (0u8..=255).collect();
    let text = bytes_to_hex_string(&bytes);
    assert_eq!(hex_string_to_bytes(&text), Some(bytes));
}

#[test]
fn hex_text_errors() {
    assert_eq!(hex_to_bytes_checked("0c 01"), Ok(vec![0x0c, 0x01]));
    assert_eq!(hex_to_bytes_checked("0c0"), Err(QuotesError::OddHexLength));
    assert_eq!(hex_to_bytes_checked("0g"), Err(QuotesError::InvalidHexDigit));
}

#[test]
fn gbk_text() {
    assert_eq!(utf8_to_gbk(b"abc\0def"), "abc");
    assert_eq!(v1_utf8_to_gbk(b"abc\0def"), "abcdef");
    assert_eq!(utf8_to_gbk(&[0xd6, 0xd0, 0xce, 0xc4]), "中文");
}

#[test]
fn gbk_and_big5_conversions() {
    assert_eq!(decode_gbk(&[0xd6, 0xd0]), Ok("中".as_bytes().to_vec()));
    assert_eq!(encode_gbk("中".as_bytes()), Ok(vec![0xd6, 0xd0]));
    assert_eq!(encode_gbk(b"ascii"), Ok(b"ascii".to_vec()));
    assert_eq!(encode_gbk(&[0xff, 0xfe]), Err(QuotesError::Encoding));
    assert_eq!(decode_big5(&[0xa4, 0xa4]), Ok("中".as_bytes().to_vec()));
    assert_eq!(encode_big5("中".as_bytes()), Ok(vec![0xa4, 0xa4]));
    assert_eq!(decode_gbk(&[0x81]), Err(QuotesError::Encoding));
}

#[test]
fn zlib_roundtrip() {
    let data = b"hello hello hello hello".to_vec();
    let packed = zlib_compress(&data).unwrap();
    assert_ne!(packed, data);
    assert_eq!(zlib_decompress(&packed), Ok(data));
    assert_eq!(zlib_decompress(&[1, 2, 3]), Err(QuotesError::Decompress));
    assert_eq!(zlib_decompress(&[0x00, 0x01, 0x02]), Err(QuotesError::Decompress));
    assert_eq!(zlib_decompress(&[0x78, 0xbb, 0x00]), Err(QuotesError::Decompress));
}

fn time_as_floats_print_it(stamp: i32) -> String {
    let mut h = stamp / 1_000_000;
    let tmp1 = stamp % 1_000_000;
    let m1 = tmp1 / 10_000;
    let tmp2 = tmp1 % 10_000;
    let (m, st) = if m1 < 60 {
        (m1, (tmp2 * 60) as f64 / 10_000f64)
    } else {
        h += 1;
        (tmp1 / 1_000_000, ((tmp1 % 1_000_000) * 60) as f64 / 1_000_000f64)
    };
    format!("{:02}:{:02}:{:06.3}", h, m, st)
}

#[test]
fn packed_times_print_as_floats_do() {
    assert_eq!(time_from_int(601575), "01:00:36.094");
    assert_eq!(time_from_int(609375), "01:00:36.562");
    for tmp1 in 600_000..1_000_000 {
        let stamp = 9_000_000 + tmp1;
        assert_eq!(time_from_int(stamp), time_as_floats_print_it(stamp), "stamp {}", stamp);
    }
    for stamp in (0..60_000_000).step_by(997) {
        assert_eq!(time_from_int(stamp), time_as_floats_print_it(stamp), "stamp {}", stamp);
        assert_eq!(time_from_int(-stamp), time_as_floats_print_it(-stamp), "stamp {}", -stamp);
    }
}

#[test]
fn hex_text_reads_back() {
    assert_eq!(hex_to_bytes_checked("02020002000400"), Ok(vec![2, 2, 0, 2, 0, 4, 0]));
    let bytes = vec![0u8, 1, 0x7f, 0x80, 0xfe, 0xff];
    let text = tdx::internal::hex::bytes_to_hex_string(&bytes);
    assert_eq!(text, "00 01 7F 80 FE FF");
    assert_eq!(hex_to_bytes_checked(&text), Ok(bytes));
    assert_eq!(hex_to_bytes_checked("0 2 0"), Err(QuotesError::OddHexLength));
    assert_eq!(hex_to_bytes_checked("0g"), Err(QuotesError::InvalidHexDigit));
}
