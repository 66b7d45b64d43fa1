use pumpkin_protocol::bytebuf::read::ReadBuf;
use pumpkin_protocol::bytebuf::write::WriteBuf;
use pumpkin_protocol::codec::var_int::VarInt;
use pumpkin_protocol::error::{DecodeError, EncodeError};

fn encoded(value: i32) -> Vec<u8> {
    VarInt(value).to_bytes()
}

#[test]
fn var_int_known_encodings() {
    assert_eq!(encoded(0), vec![0x00]);
    assert_eq!(encoded(1), vec![0x01]);
    assert_eq!(encoded(2), vec![0x02]);
    assert_eq!(encoded(127), vec![0x7f]);
    assert_eq!(encoded(128), vec![0x80, 0x01]);
    assert_eq!(encoded(255), vec![0xff, 0x01]);
    assert_eq!(encoded(25565), vec![0xdd, 0xc7, 0x01]);
    assert_eq!(encoded(2097151), vec![0xff, 0xff, 0x7f]);
    assert_eq!(encoded(2147483647), vec![0xff, 0xff, 0xff, 0xff, 0x07]);
    assert_eq!(encoded(-1), vec![0xff, 0xff, 0xff, 0xff, 0x0f]);
    assert_eq!(encoded(-2147483648), vec![0x80, 0x80, 0x80, 0x80, 0x08]);
}

#[test]
fn var_int_known_decodings() {
    assert_eq!(VarInt::decode_slice(&[0x00]), Ok((VarInt(0), 1)));
    assert_eq!(VarInt::decode_slice(&[0x7f]), Ok((VarInt(127), 1)));
    assert_eq!(VarInt::decode_slice(&[0x80, 0x01]), Ok((VarInt(128), 2)));
    assert_eq!(VarInt::decode_slice(&[0xdd, 0xc7, 0x01]), Ok((VarInt(25565), 3)));
    assert_eq!(
        VarInt::decode_slice(&[0xff, 0xff, 0xff, 0xff, 0x07]),
        Ok((VarInt(2147483647), 5))
    );
    assert_eq!(VarInt::decode_slice(&[0xff, 0xff, 0xff, 0xff, 0x0f]), Ok((VarInt(-1), 5)));
    assert_eq!(
        VarInt::decode_slice(&[0x80, 0x80, 0x80, 0x80, 0x08]),
        Ok((VarInt(-2147483648), 5))
    );
}

#[test]
fn var_int_round_trip_over_many_values() {
    let mut samples: Vec<i32> = vec![0, 1, -1, 127, 128, 16383, 16384, 2097151, 2097152];
    samples.extend([268435455, 268435456, i32::MAX, i32::MIN, i32::MIN + 1, -128, -129]);
    let mut v: i64 = i32::MIN as i64;
    while v <= i32::MAX as i64 {
        samples.push(v as i32);
        v += 7_777_777;
    }
    for value in samples {
        let bytes = encoded(value);
        assert_eq!(VarInt::decode_slice(&bytes), Ok((VarInt(value), bytes.len())));
        assert_eq!(VarInt(value).written_size(), bytes.len());
    }
}

#[test]
fn var_int_length_is_minimal() {
    assert_eq!(VarInt(0).written_size(), 1);
    assert_eq!(VarInt(127).written_size(), 1);
    assert_eq!(VarInt(128).written_size(), 2);
    assert_eq!(VarInt(16383).written_size(), 2);
    assert_eq!(VarInt(16384).written_size(), 3);
    assert_eq!(VarInt(2097151).written_size(), 3);
    assert_eq!(VarInt(2097152).written_size(), 4);
    assert_eq!(VarInt(268435455).written_size(), 4);
    assert_eq!(VarInt(268435456).written_size(), 5);
    assert_eq!(VarInt(i32::MAX).written_size(), 5);
    assert_eq!(VarInt(-1).written_size(), 5);
    assert_eq!(VarInt(i32::MIN).written_size(), 5);
}

#[test]
fn var_int_rejects_six_continuation_bytes() {
    let bytes = [0x80u8, 0x80, 0x80, 0x80, 0x80, 0x80];
    assert_eq!(VarInt::decode_slice(&bytes), Err(DecodeError::VarIntTooLong));
    let bytes = [0xffu8, 0xff, 0xff, 0xff, 0xff, 0xff];
    assert_eq!(VarInt::decode_slice(&bytes), Err(DecodeError::VarIntTooLong));
    let mut cursor = ReadBuf::new(bytes::Bytes::from(bytes.to_vec()));
    assert_eq!(cursor.try_get_var_int(), Err(DecodeError::VarIntTooLong));
}

#[test]
fn var_int_sixth_byte_is_never_part_of_a_value() {
    let bytes = [0x80u8, 0x80, 0x80, 0x80, 0x80, 0x01];
    assert_eq!(VarInt::decode_slice(&bytes), Err(DecodeError::VarIntTooLong));
}

#[test]
fn var_int_that_ends_early_is_unexpected_end() {
    assert_eq!(VarInt::decode_slice(&[]), Err(DecodeError::UnexpectedEnd));
    assert_eq!(VarInt::decode_slice(&[0x80]), Err(DecodeError::UnexpectedEnd));
    assert_eq!(VarInt::decode_slice(&[0xff, 0xff]), Err(DecodeError::UnexpectedEnd));
    assert_eq!(
        VarInt::decode_slice(&[0x80, 0x80, 0x80, 0x80, 0x80]),
        Err(DecodeError::UnexpectedEnd)
    );
}

#[test]
fn var_int_decoder_takes_encodings_that_are_not_minimal() {
    assert_eq!(VarInt::decode_slice(&[0x80, 0x00]), Ok((VarInt(0), 2)));
    assert_eq!(VarInt::decode_slice(&[0x81, 0x80, 0x00]), Ok((VarInt(1), 3)));
}

#[test]
fn var_int_decoder_drops_bits_above_the_thirty_second() {
    assert_eq!(VarInt::decode_slice(&[0xff, 0xff, 0xff, 0xff, 0x7f]), Ok((VarInt(-1), 5)));
    assert_eq!(VarInt::decode_slice(&[0x80, 0x80, 0x80, 0x80, 0x10]), Ok((VarInt(0), 5)));
}

#[test]
fn var_int_decoding_stops_at_the_value_end() {
    let bytes = [0xdd, 0xc7, 0x01, 0xaa, 0xbb];
    assert_eq!(VarInt::decode_slice(&bytes), Ok((VarInt(25565), 3)));
    let mut cursor = ReadBuf::new(bytes::Bytes::from(bytes.to_vec()));
    assert_eq!(cursor.try_get_var_int(), Ok(VarInt(25565)));
    assert_eq!(cursor.as_slice(), &[0xaa, 0xbb]);
}

#[test]
fn var_int_failed_read_leaves_the_cursor() {
    let mut cursor = ReadBuf::new(bytes::Bytes::from(vec![0x80u8, 0x80]));
    assert_eq!(cursor.try_get_var_int(), Err(DecodeError::UnexpectedEnd));
    assert_eq!(cursor.remaining(), 2);
}

#[test]
fn var_int_through_the_cursors() {
    let mut sink = WriteBuf::new();
    for value in [0, 300, -1, i32::MAX, i32::MIN, 25565] {
        assert_eq!(sink.put_var_int(&VarInt(value)), Ok(()));
    }
    let mut cursor = ReadBuf::new(sink.into_bytes());
    for value in [0, 300, -1, i32::MAX, i32::MIN, 25565] {
        assert_eq!(cursor.try_get_var_int(), Ok(VarInt(value)));
    }
    assert!(!cursor.has_remaining());
}

#[test]
fn var_int_max_size_is_five() {
    assert_eq!(VarInt::MAX_SIZE, 5);
}

#[test]
fn var_int_encode_and_decode() {
    let mut sink = WriteBuf::with_limit(6);
    assert_eq!(VarInt(25565).encode(&mut sink), Ok(()));
    assert_eq!(VarInt(-1).encode(&mut sink), Err(EncodeError::CapacityExceeded));
    assert_eq!(VarInt(2097151).encode(&mut sink), Ok(()));
    assert_eq!(sink.as_slice(), &[0xdd, 0xc7, 0x01, 0xff, 0xff, 0x7f]);
    let mut cursor = ReadBuf::new(sink.into_bytes());
    assert_eq!(VarInt::decode(&mut cursor), Ok(VarInt(25565)));
    assert_eq!(VarInt::decode(&mut cursor), Ok(VarInt(2097151)));
    assert_eq!(VarInt::decode(&mut cursor), Err(DecodeError::UnexpectedEnd));
}
