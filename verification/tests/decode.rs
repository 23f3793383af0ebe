use std::collections::BTreeMap;
use std::collections::HashMap;
use std::collections::HashSet;

use borsh_de::buffers::ByteBuf;
use borsh_de::net::Ipv4Addr;
use borsh_de::net::SocketAddr;
use borsh_de::net::SocketAddrV4;
use borsh_de::net::SocketAddrV6;
use borsh_de::BorshDeserialize;
use borsh_de::Error;
use borsh_de::ErrorKind;
use borsh_de::Float32;
use borsh_de::Float64;

#[test]
fn u8_decodes() {
    assert_eq!(u8::try_from_slice(&[0x2a]), Ok(42u8));
}

#[test]
fn u16_little_endian() {
    assert_eq!(u16::try_from_slice(&[0x01, 0x02]), Ok(0x0201u16));
}

#[test]
fn u32_little_endian() {
    assert_eq!(u32::try_from_slice(&[0x78, 0x56, 0x34, 0x12]), Ok(0x12345678u32));
}

#[test]
fn u64_little_endian() {
    let bytes = [0x01, 0x00, 0x00, 0x00, 0x00, 0x00, 0x00, 0x80];
    assert_eq!(u64::try_from_slice(&bytes), Ok(0x8000000000000001u64));
}

#[test]
fn u128_little_endian() {
    let mut bytes = [0u8; 16];
    bytes[0] = 0x2a;
    bytes[15] = 0x01;
    assert_eq!(u128::try_from_slice(&bytes), Ok((1u128 << 120) + 42));
}

#[test]
fn i8_negative() {
    assert_eq!(i8::try_from_slice(&[0xff]), Ok(-1i8));
    assert_eq!(i8::try_from_slice(&[0x80]), Ok(i8::MIN));
    assert_eq!(i8::try_from_slice(&[0x7f]), Ok(i8::MAX));
}

#[test]
fn i16_negative() {
    assert_eq!(i16::try_from_slice(&[0xfe, 0xff]), Ok(-2i16));
}

#[test]
fn i32_round_values() {
    assert_eq!(i32::try_from_slice(&[0x00, 0x00, 0x00, 0x80]), Ok(i32::MIN));
    assert_eq!(i32::try_from_slice(&[0xff, 0xff, 0xff, 0x7f]), Ok(i32::MAX));
    assert_eq!(i32::try_from_slice(&[0xd6, 0xff, 0xff, 0xff]), Ok(-42i32));
}

#[test]
fn i64_negative() {
    let bytes = [0xff; 8];
    assert_eq!(i64::try_from_slice(&bytes), Ok(-1i64));
}

#[test]
fn i128_negative() {
    let bytes = [0xff; 16];
    assert_eq!(i128::try_from_slice(&bytes), Ok(-1i128));
}

#[test]
fn integer_eof() {
    assert_eq!(u32::try_from_slice(&[0x01, 0x02]), Err(Error::UnexpectedEof));
    assert_eq!(Error::UnexpectedEof.kind(), ErrorKind::UnexpectedEof);
}

#[test]
fn bool_one_is_true() {
    assert_eq!(bool::try_from_slice(&[1]), Ok(true));
    assert_eq!(bool::try_from_slice(&[0]), Ok(false));
}

#[test]
fn bool_other_bytes_are_false() {
    assert_eq!(bool::try_from_slice(&[2]), Ok(false));
    assert_eq!(bool::try_from_slice(&[255]), Ok(false));
}

#[test]
fn float32_bits_round_trip() {
    let bits = 1.5f32.to_bits();
    let enc = bits.to_le_bytes();
    let decoded = Float32::try_from_slice(&enc).unwrap();
    assert_eq!(f32::from_bits(decoded.bits), 1.5f32);
}

#[test]
fn float32_nan_rejected() {
    let enc = 0x7fc00000u32.to_le_bytes();
    assert_eq!(Float32::try_from_slice(&enc), Err(Error::NanDisallowed));
    assert_eq!(Error::NanDisallowed.kind(), ErrorKind::InvalidInput);
}

#[test]
fn float64_bits_round_trip() {
    let bits = (-2.25f64).to_bits();
    let enc = bits.to_le_bytes();
    let decoded = Float64::try_from_slice(&enc).unwrap();
    assert_eq!(f64::from_bits(decoded.bits), -2.25f64);
}

#[test]
fn float64_nan_rejected() {
    let enc = f64::NAN.to_bits().to_le_bytes();
    assert_eq!(Float64::try_from_slice(&enc), Err(Error::NanDisallowed));
}

#[test]
fn optional_present_i8() {
    assert_eq!(<Option<i8>>::try_from_slice(&[0x01, 0x2a]), Ok(Some(42i8)));
}

#[test]
fn optional_absent_consumes_one_byte() {
    assert_eq!(<Option<u32>>::try_from_slice(&[0x00]), Ok(None));
}

#[test]
fn optional_any_nonzero_flag_is_present() {
    assert_eq!(<Option<u8>>::try_from_slice(&[0x07, 0x05]), Ok(Some(5u8)));
}

#[test]
fn string_decodes_utf8() {
    let mut bytes = vec![5, 0, 0, 0];
    bytes.extend_from_slice(b"hello");
    assert_eq!(String::try_from_slice(&bytes), Ok("hello".to_string()));
}

#[test]
fn string_multibyte_utf8() {
    let text = "héllo";
    let payload = text.as_bytes();
    let mut bytes = (payload.len() as u32).to_le_bytes().to_vec();
    bytes.extend_from_slice(payload);
    assert_eq!(String::try_from_slice(&bytes), Ok(text.to_string()));
}

#[test]
fn string_truncated_payload_is_eof() {
    assert_eq!(
        String::try_from_slice(&[0x03, 0x00, 0x00, 0x00, 0x41]),
        Err(Error::UnexpectedEof)
    );
}

#[test]
fn string_invalid_utf8() {
    let bytes = vec![2, 0, 0, 0, 0xff, 0xfe];
    assert_eq!(String::try_from_slice(&bytes), Err(Error::InvalidUtf8));
    assert_eq!(Error::InvalidUtf8.kind(), ErrorKind::InvalidData);
}

#[test]
fn vec_decodes_in_order() {
    let bytes = vec![3, 0, 0, 0, 10, 20, 30];
    assert_eq!(<Vec<u8>>::try_from_slice(&bytes), Ok(vec![10u8, 20, 30]));
}

#[test]
fn vec_of_u16() {
    let bytes = vec![2, 0, 0, 0, 0x01, 0x00, 0x02, 0x00];
    assert_eq!(<Vec<u16>>::try_from_slice(&bytes), Ok(vec![1u16, 2]));
}

#[test]
fn vec_declared_length_beyond_input_is_eof() {
    let bytes = vec![0xff, 0xff, 0xff, 0xff, 1, 2, 3];
    assert_eq!(<Vec<u8>>::try_from_slice(&bytes), Err(Error::UnexpectedEof));
}

#[test]
fn vec_element_failure_propagates() {
    let bytes = vec![2, 0, 0, 0, 1, 0, 0, 0];
    assert_eq!(<Vec<u32>>::try_from_slice(&bytes), Err(Error::UnexpectedEof));
}

#[test]
fn hash_set_collapses_duplicates() {
    let bytes = vec![3, 0, 0, 0, 7, 7, 9];
    let set = <HashSet<u8>>::try_from_slice(&bytes).unwrap();
    let expected: HashSet<u8> = [7u8, 9].into_iter().collect();
    assert_eq!(set, expected);
}

#[test]
fn hash_map_later_value_replaces_earlier() {
    let bytes = vec![2, 0, 0, 0, 1, 10, 1, 20];
    let map = <HashMap<u8, u8>>::try_from_slice(&bytes).unwrap();
    assert_eq!(map.len(), 1);
    assert_eq!(map[&1u8], 20u8);
}

#[test]
fn hash_map_decodes_pairs() {
    let bytes = vec![2, 0, 0, 0, 1, 0, 10, 0, 2, 0, 20, 0];
    let map = <HashMap<u16, u16>>::try_from_slice(&bytes).unwrap();
    assert_eq!(map.len(), 2);
    assert_eq!(map[&1u16], 10u16);
    assert_eq!(map[&2u16], 20u16);
}

#[test]
fn btree_map_decodes_and_orders_by_key() {
    let bytes = vec![2, 0, 0, 0, 9, 90, 3, 30];
    let map = <BTreeMap<u8, u8>>::try_from_slice(&bytes).unwrap();
    assert_eq!(map.len(), 2);
    assert_eq!(map[&3u8], 30u8);
    assert_eq!(map[&9u8], 90u8);
    let keys: Vec<u8> = map.keys().copied().collect();
    assert_eq!(keys, vec![3u8, 9]);
}

#[test]
fn byte_buf_reads_declared_length() {
    let bytes = vec![3, 0, 0, 0, 1, 2, 3];
    let buf = ByteBuf::try_from_slice(&bytes).unwrap();
    assert_eq!(buf.bytes, vec![1u8, 2, 3]);
}

#[test]
fn byte_buf_oversized_length_is_refused() {
    let bytes = vec![0xff, 0xff, 0xff, 0x7f, 1, 2, 3];
    assert_eq!(ByteBuf::try_from_slice(&bytes), Err(Error::LengthExceedsRemaining));
    assert_eq!(Error::LengthExceedsRemaining.kind(), ErrorKind::InvalidInput);
}

#[test]
fn array_has_no_length_prefix() {
    let arr = <[u8; 4]>::try_from_slice(&[9, 8, 7, 6]).unwrap();
    assert_eq!(arr, [9u8, 8, 7, 6]);
}

#[test]
fn array_of_u16() {
    let arr = <[u16; 2]>::try_from_slice(&[1, 0, 2, 0]).unwrap();
    assert_eq!(arr, [1u16, 2]);
}

#[test]
fn tuple_components_in_order() {
    let bytes = vec![0x2a, 0x01, 0x00, 0x00, 0x00];
    assert_eq!(<(u8, u32)>::try_from_slice(&bytes), Ok((42u8, 1u32)));
}

#[test]
fn triple_components_in_order() {
    let bytes = vec![1, 2, 0, 3];
    assert_eq!(<(u8, u16, u8)>::try_from_slice(&bytes), Ok((1u8, 2u16, 3u8)));
}

#[test]
fn socket_addr_v4_wire() {
    let bytes = vec![0, 127, 0, 0, 1, 0x39, 0x30];
    let addr = SocketAddr::try_from_slice(&bytes).unwrap();
    match addr {
        SocketAddr::V4(v4) => {
            assert_eq!(v4.ip.octets, vec![127u8, 0, 0, 1]);
            assert_eq!(v4.port, 12345u16);
        },
        SocketAddr::V6(_) => panic!("wrong family"),
    }
}

#[test]
fn socket_addr_v6_wire() {
    let mut bytes = vec![1u8];
    bytes.extend_from_slice(&[0xab; 16]);
    bytes.extend_from_slice(&[0x50, 0x00]);
    let addr = SocketAddr::try_from_slice(&bytes).unwrap();
    match addr {
        SocketAddr::V4(_) => panic!("wrong family"),
        SocketAddr::V6(v6) => {
            assert_eq!(v6.ip.octets, vec![0xabu8; 16]);
            assert_eq!(v6.port, 80u16);
        },
    }
}

#[test]
fn socket_addr_unknown_discriminant_cites_value() {
    assert_eq!(
        SocketAddr::try_from_slice(&[0x02]),
        Err(Error::InvalidSocketAddrVariant(2))
    );
    assert_eq!(Error::InvalidSocketAddrVariant(2).kind(), ErrorKind::InvalidInput);
}

#[test]
fn socket_addr_v4_direct() {
    let bytes = vec![10, 0, 0, 7, 0x01, 0x00];
    let v4 = SocketAddrV4::try_from_slice(&bytes).unwrap();
    assert_eq!(v4.ip.octets, vec![10u8, 0, 0, 7]);
    assert_eq!(v4.port, 1u16);
}

#[test]
fn socket_addr_v6_direct() {
    let mut bytes = vec![0u8; 16];
    bytes[15] = 1;
    bytes.extend_from_slice(&[0xbb, 0x01]);
    let v6 = SocketAddrV6::try_from_slice(&bytes).unwrap();
    assert_eq!(v6.ip.octets[15], 1u8);
    assert_eq!(v6.port, 443u16);
}

#[test]
fn ipv4_addr_reads_four_octets() {
    let ip = Ipv4Addr::try_from_slice(&[192, 168, 0, 1]).unwrap();
    assert_eq!(ip.octets, vec![192u8, 168, 0, 1]);
}

#[test]
fn trailing_byte_fails_full_consumption() {
    assert_eq!(u8::try_from_slice(&[1, 2]), Err(Error::NotAllBytesRead));
    assert_eq!(Error::NotAllBytesRead.kind(), ErrorKind::InvalidData);
}

#[test]
fn trailing_byte_after_composite() {
    let bytes = vec![1, 0, 0, 0, 5, 99];
    assert_eq!(<Vec<u8>>::try_from_slice(&bytes), Err(Error::NotAllBytesRead));
}

#[test]
fn empty_input_is_eof() {
    assert_eq!(u8::try_from_slice(&[]), Err(Error::UnexpectedEof));
    assert_eq!(<Option<u8>>::try_from_slice(&[]), Err(Error::UnexpectedEof));
}

#[test]
fn input_slice_is_untouched() {
    let bytes = vec![0x2a];
    let copy = bytes.clone();
    let _ = u8::try_from_slice(&bytes).unwrap();
    assert_eq!(bytes, copy);
}

#[test]
fn nested_option_vec() {
    let bytes = vec![1, 2, 0, 0, 0, 4, 5];
    assert_eq!(<Option<Vec<u8>>>::try_from_slice(&bytes), Ok(Some(vec![4u8, 5])));
}

#[test]
fn quadruple_components_in_order() {
    let bytes = vec![1, 2, 3, 0, 4];
    assert_eq!(
        <(u8, u8, u16, u8)>::try_from_slice(&bytes),
        Ok((1u8, 2u8, 3u16, 4u8))
    );
}

#[test]
fn zero_length_array_consumes_nothing() {
    assert_eq!(<[u8; 0]>::try_from_slice(&[]), Ok([]));
    assert_eq!(<[u8; 0]>::try_from_slice(&[1]), Err(Error::NotAllBytesRead));
}

#[test]
fn byte_buf_empty() {
    let buf = ByteBuf::try_from_slice(&[0, 0, 0, 0]).unwrap();
    assert_eq!(buf.bytes, Vec::<u8>::new());
}

#[test]
fn empty_vec_and_string() {
    assert_eq!(<Vec<u8>>::try_from_slice(&[0, 0, 0, 0]), Ok(vec![]));
    assert_eq!(String::try_from_slice(&[0, 0, 0, 0]), Ok(String::new()));
}
