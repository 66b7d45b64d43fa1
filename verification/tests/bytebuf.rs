use bytes::Bytes;
use pumpkin_protocol::bytebuf::read::{ReadBuf, MAX_STRING_LEN};
use pumpkin_protocol::bytebuf::write::{WriteBuf, MAX_CAPACITY};
use pumpkin_protocol::codec::identifier::{is_valid_part, Identifier};
use pumpkin_protocol::codec::var_int::VarInt;
use pumpkin_protocol::error::{DecodeError, EncodeError};
use pumpkin_protocol::position::WorldPosition;

fn cursor(bytes: &[u8]) -> ReadBuf {
    ReadBuf::new(Bytes::from(bytes.to_vec()))
}

#[test]
fn read_u8_and_end() {
    let mut c = cursor(&[7, 9]);
    assert_eq!(c.remaining(), 2);
    assert_eq!(c.try_get_u8(), Ok(7));
    assert_eq!(c.try_get_u8(), Ok(9));
    assert!(!c.has_remaining());
    assert_eq!(c.try_get_u8(), Err(DecodeError::UnexpectedEnd));
    assert_eq!(c.remaining(), 0);
}

#[test]
fn read_bool_and_i8() {
    let mut c = cursor(&[0, 1, 2, 0xff, 0x80, 0x7f]);
    assert_eq!(c.try_get_bool(), Ok(false));
    assert_eq!(c.try_get_bool(), Ok(true));
    assert_eq!(c.try_get_bool(), Ok(true));
    assert_eq!(c.try_get_i8(), Ok(-1));
    assert_eq!(c.try_get_i8(), Ok(-128));
    assert_eq!(c.try_get_i8(), Ok(127));
    assert_eq!(c.try_get_bool(), Err(DecodeError::UnexpectedEnd));
    assert_eq!(c.try_get_i8(), Err(DecodeError::UnexpectedEnd));
}

#[test]
fn read_fixed_width_is_big_endian() {
    let mut c = cursor(&[0x63, 0xdd]);
    assert_eq!(c.try_get_u16(), Ok(25565));
    let mut c = cursor(&[0x00, 0x00, 0x01, 0x00]);
    assert_eq!(c.try_get_i32(), Ok(256));
    let mut c = cursor(&[0xff, 0xff, 0xff, 0xfe]);
    assert_eq!(c.try_get_i32(), Ok(-2));
    let mut c = cursor(&[0x80, 0, 0, 0]);
    assert_eq!(c.try_get_i32(), Ok(i32::MIN));
    let mut c = cursor(&[0x01, 0x02, 0x03, 0x04, 0x05, 0x06, 0x07, 0x08]);
    assert_eq!(c.try_get_i64(), Ok(0x0102030405060708));
    let mut c = cursor(&[0xff; 8]);
    assert_eq!(c.try_get_i64(), Ok(-1));
    let mut c = cursor(&[0x80, 0, 0, 0, 0, 0, 0, 0]);
    assert_eq!(c.try_get_i64(), Ok(i64::MIN));
}

#[test]
fn read_fixed_width_needs_all_its_bytes() {
    let mut c = cursor(&[1]);
    assert_eq!(c.try_get_u16(), Err(DecodeError::UnexpectedEnd));
    assert_eq!(c.remaining(), 1);
    let mut c = cursor(&[1, 2, 3]);
    assert_eq!(c.try_get_i32(), Err(DecodeError::UnexpectedEnd));
    assert_eq!(c.remaining(), 3);
    let mut c = cursor(&[1, 2, 3, 4, 5, 6, 7]);
    assert_eq!(c.try_get_i64(), Err(DecodeError::UnexpectedEnd));
    assert_eq!(c.remaining(), 7);
}

#[test]
fn copy_to_bytes_takes_the_front() {
    let mut c = cursor(&[1, 2, 3, 4, 5]);
    let head = c.try_copy_to_bytes(2).unwrap();
    assert_eq!(&head[..], &[1, 2]);
    assert_eq!(c.as_slice(), &[3, 4, 5]);
    assert!(matches!(c.try_copy_to_bytes(4), Err(DecodeError::UnexpectedEnd)));
    assert_eq!(c.as_slice(), &[3, 4, 5]);
    let rest = c.into_bytes();
    assert_eq!(&rest[..], &[3, 4, 5]);
}

#[test]
fn checkpoint_and_rewind() {
    let mut c = cursor(&[1, 2, 3]);
    let mark = c.checkpoint();
    assert_eq!(c.try_get_u8(), Ok(1));
    assert_eq!(c.try_get_u8(), Ok(2));
    c.rewind(mark);
    assert_eq!(c.as_slice(), &[1, 2, 3]);
}

#[test]
fn read_string() {
    let mut c = cursor(&[5, b'h', b'e', b'l', b'l', b'o', 0xaa]);
    assert_eq!(c.try_get_string(), Ok("hello".to_string()));
    assert_eq!(c.as_slice(), &[0xaa]);
    let mut c = cursor(&[0]);
    assert_eq!(c.try_get_string(), Ok(String::new()));
    assert_eq!(c.remaining(), 0);
}

#[test]
fn read_string_of_several_bytes_a_character() {
    let text = "gr\u{fc}\u{df}e \u{4e16}\u{754c} \u{1f600}";
    let mut bytes = vec![text.len() as u8];
    bytes.extend_from_slice(text.as_bytes());
    let mut c = cursor(&bytes);
    assert_eq!(c.try_get_string(), Ok(text.to_string()));
    assert_eq!(c.remaining(), 0);
}

#[test]
fn string_longer_than_the_cap_is_rejected() {
    let mut bytes = vec![4u8];
    bytes.extend_from_slice(&[b'a'; 4000]);
    let mut c = cursor(&bytes);
    assert_eq!(c.try_get_string_len(3), Err(DecodeError::StringTooLong));
    assert_eq!(c.remaining(), 4001);
    assert_eq!(c.try_get_string_len(4), Ok("aaaa".to_string()));
}

#[test]
fn string_cap_counts_before_the_bytes_are_there() {
    let mut c = cursor(&[0xff, 0xff, 0x7f]);
    assert_eq!(c.try_get_string_len(100), Err(DecodeError::StringTooLong));
    let mut c = cursor(&[0xff, 0xff, 0xff, 0xff, 0x07]);
    assert_eq!(c.try_get_string(), Err(DecodeError::StringTooLong));
    assert_eq!(c.remaining(), 5);
}

#[test]
fn string_with_negative_length_is_too_long() {
    let mut c = cursor(&[0xff, 0xff, 0xff, 0xff, 0x0f, b'a']);
    assert_eq!(c.try_get_string_len(u32::MAX - 1), Err(DecodeError::StringTooLong));
    assert_eq!(c.try_get_string(), Err(DecodeError::StringTooLong));
}

#[test]
fn default_string_cap() {
    assert_eq!(MAX_STRING_LEN, 32767);
    let mut bytes = VarInt(32768).to_bytes();
    bytes.extend_from_slice(&vec![b'a'; 32768]);
    let mut c = cursor(&bytes);
    assert_eq!(c.try_get_string(), Err(DecodeError::StringTooLong));
    let mut bytes = VarInt(32767).to_bytes();
    bytes.extend_from_slice(&vec![b'a'; 32767]);
    let mut c = cursor(&bytes);
    assert_eq!(c.try_get_string().map(|s| s.len()), Ok(32767));
}

#[test]
fn string_that_ends_early() {
    let mut c = cursor(&[5, b'h', b'e']);
    assert_eq!(c.try_get_string(), Err(DecodeError::UnexpectedEnd));
    assert_eq!(c.remaining(), 3);
    let mut c = cursor(&[]);
    assert_eq!(c.try_get_string(), Err(DecodeError::UnexpectedEnd));
    let mut c = cursor(&[0x80]);
    assert_eq!(c.try_get_string(), Err(DecodeError::UnexpectedEnd));
}

#[test]
fn string_with_overlong_length_prefix() {
    let mut c = cursor(&[0x80, 0x80, 0x80, 0x80, 0x80, 0x80, 0x01]);
    assert_eq!(c.try_get_string(), Err(DecodeError::VarIntTooLong));
}

#[test]
fn string_that_is_not_utf8() {
    let mut c = cursor(&[2, 0xc3, 0x28]);
    assert_eq!(c.try_get_string(), Err(DecodeError::InvalidEncoding));
    assert_eq!(c.remaining(), 3);
    let mut c = cursor(&[1, 0xff]);
    assert_eq!(c.try_get_string(), Err(DecodeError::InvalidEncoding));
    let mut c = cursor(&[3, 0xed, 0xa0, 0x80]);
    assert_eq!(c.try_get_string(), Err(DecodeError::InvalidEncoding));
    let mut c = cursor(&[2, 0xc0, 0x80]);
    assert_eq!(c.try_get_string(), Err(DecodeError::InvalidEncoding));
}

#[test]
fn write_fixed_width_is_big_endian() {
    let mut w = WriteBuf::new();
    assert_eq!(w.put_u8(0xab), Ok(()));
    assert_eq!(w.put_bool(true), Ok(()));
    assert_eq!(w.put_bool(false), Ok(()));
    assert_eq!(w.put_i8(-1), Ok(()));
    assert_eq!(w.put_i8(-128), Ok(()));
    assert_eq!(w.put_u16(25565), Ok(()));
    assert_eq!(w.put_i32(256), Ok(()));
    assert_eq!(w.put_i32(-2), Ok(()));
    assert_eq!(w.put_i64(0x0102030405060708), Ok(()));
    assert_eq!(w.put_i64(-1), Ok(()));
    assert_eq!(w.put_i64(i64::MIN), Ok(()));
    let expected: Vec<u8> = vec![
        0xab, 1, 0, 0xff, 0x80, 0x63, 0xdd, 0, 0, 1, 0, 0xff, 0xff, 0xff, 0xfe, 1, 2, 3, 4, 5, 6,
        7, 8, 0xff, 0xff, 0xff, 0xff, 0xff, 0xff, 0xff, 0xff, 0x80, 0, 0, 0, 0, 0, 0, 0,
    ];
    assert_eq!(w.as_slice(), &expected[..]);
    assert_eq!(w.len(), expected.len());
}

#[test]
fn fixed_width_round_trip() {
    for value in [0i64, 1, -1, i64::MAX, i64::MIN, 0x1234_5678_9abc_def0, -987654321] {
        let mut w = WriteBuf::new();
        assert_eq!(w.put_i64(value), Ok(()));
        assert_eq!(w.put_i32(value as i32), Ok(()));
        assert_eq!(w.put_u16(value as u16), Ok(()));
        assert_eq!(w.put_i8(value as i8), Ok(()));
        let mut c = ReadBuf::new(w.into_bytes());
        assert_eq!(c.try_get_i64(), Ok(value));
        assert_eq!(c.try_get_i32(), Ok(value as i32));
        assert_eq!(c.try_get_u16(), Ok(value as u16));
        assert_eq!(c.try_get_i8(), Ok(value as i8));
    }
}

#[test]
fn write_string() {
    let mut w = WriteBuf::new();
    assert_eq!(w.put_string("hello"), Ok(()));
    assert_eq!(w.put_string(""), Ok(()));
    assert_eq!(w.put_string("\u{4e16}"), Ok(()));
    assert_eq!(w.as_slice(), &[5, b'h', b'e', b'l', b'l', b'o', 0, 3, 0xe4, 0xb8, 0x96]);
    let long = "x".repeat(300);
    let mut w = WriteBuf::new();
    assert_eq!(w.put_string(&long), Ok(()));
    assert_eq!(&w.as_slice()[..2], &[0xac, 0x02]);
    assert_eq!(w.len(), 302);
    let mut c = ReadBuf::new(w.into_bytes());
    assert_eq!(c.try_get_string(), Ok(long));
}

#[test]
fn capacity_is_a_hard_limit() {
    let mut w = WriteBuf::with_limit(4);
    assert_eq!(w.capacity(), 4);
    assert_eq!(w.put_slice(&[1, 2, 3]), Ok(()));
    assert_eq!(w.remaining_capacity(), 1);
    assert_eq!(w.put_u16(7), Err(EncodeError::CapacityExceeded));
    assert_eq!(w.put_i32(7), Err(EncodeError::CapacityExceeded));
    assert_eq!(w.put_i64(7), Err(EncodeError::CapacityExceeded));
    assert_eq!(w.put_slice(&[4, 5]), Err(EncodeError::CapacityExceeded));
    assert_eq!(w.put_var_int(&VarInt(128)), Err(EncodeError::CapacityExceeded));
    assert_eq!(w.put_string("a"), Err(EncodeError::CapacityExceeded));
    assert_eq!(w.as_slice(), &[1, 2, 3]);
    assert_eq!(w.put_u8(4), Ok(()));
    assert_eq!(w.put_u8(5), Err(EncodeError::CapacityExceeded));
    assert_eq!(w.put_bool(true), Err(EncodeError::CapacityExceeded));
    assert_eq!(w.put_i8(1), Err(EncodeError::CapacityExceeded));
    assert_eq!(w.put_slice(&[]), Ok(()));
    assert_eq!(w.as_slice(), &[1, 2, 3, 4]);
}

#[test]
fn string_write_is_all_or_nothing() {
    let mut w = WriteBuf::with_limit(5);
    assert_eq!(w.put_string("hello"), Err(EncodeError::CapacityExceeded));
    assert_eq!(w.len(), 0);
    assert_eq!(w.put_string("hell"), Ok(()));
    assert_eq!(w.len(), 5);
}

#[test]
fn capacity_has_a_ceiling() {
    assert_eq!(MAX_CAPACITY, 0x7fff_ffff);
    assert_eq!(WriteBuf::new().capacity(), MAX_CAPACITY);
    assert_eq!(WriteBuf::with_limit(usize::MAX).capacity(), MAX_CAPACITY);
    assert_eq!(WriteBuf::with_limit(0).capacity(), 0);
    let mut w = WriteBuf::with_limit(0);
    assert_eq!(w.put_u8(1), Err(EncodeError::CapacityExceeded));
}

#[test]
fn truncate_take_front_and_settle() {
    let mut w = WriteBuf::new();
    assert_eq!(w.put_slice(&[1, 2, 3, 4, 5, 6]), Ok(()));
    w.truncate(9);
    assert_eq!(w.len(), 6);
    w.truncate(5);
    assert_eq!(w.as_slice(), &[1, 2, 3, 4, 5]);
    let head = w.take_front(2);
    assert_eq!(&head[..], &[1, 2]);
    assert_eq!(w.as_slice(), &[3, 4, 5]);
    assert_eq!(w.settle(1, Ok(())), Ok(()));
    assert_eq!(w.as_slice(), &[3, 4, 5]);
    assert_eq!(
        w.settle(1, Err(EncodeError::CapacityExceeded)),
        Err(EncodeError::CapacityExceeded)
    );
    assert_eq!(w.as_slice(), &[3]);
    let all = w.take_front(10);
    assert_eq!(&all[..], &[3]);
    assert_eq!(w.len(), 0);
    assert_eq!(w.put_u8(8), Ok(()));
    assert_eq!(&w.into_bytes()[..], &[8]);
}

#[test]
fn identifier_with_namespace() {
    let id = Identifier::from_bytes(b"minecraft:stone").unwrap();
    assert_eq!(id.namespace, "minecraft");
    assert_eq!(id.path, "stone");
    let id = Identifier::from_bytes(b"my_mod-1.0:blocks/ore.png").unwrap();
    assert_eq!(id.namespace, "my_mod-1.0");
    assert_eq!(id.path, "blocks/ore.png");
}

#[test]
fn identifier_without_namespace_is_minecraft() {
    let id = Identifier::from_bytes(b"stone").unwrap();
    assert_eq!(id.namespace, "minecraft");
    assert_eq!(id.path, "stone");
}

#[test]
fn identifier_splits_at_the_first_colon_only() {
    assert_eq!(Identifier::from_bytes(b"a:b:c"), Err(DecodeError::InvalidEncoding));
    assert_eq!(Identifier::from_bytes(b"a::"), Err(DecodeError::InvalidEncoding));
}

#[test]
fn identifier_that_is_malformed() {
    for text in [&b""[..], b":", b":stone", b"minecraft:", b"Stone", b"mine craft:x", b"a:B"] {
        assert_eq!(Identifier::from_bytes(text), Err(DecodeError::InvalidEncoding));
    }
    assert_eq!(Identifier::from_bytes(&[b'a', 0xc3, 0xa9]), Err(DecodeError::InvalidEncoding));
    assert_eq!(Identifier::from_bytes(&[b'a', 0x00]), Err(DecodeError::InvalidEncoding));
}

#[test]
fn identifier_bytes_that_are_allowed() {
    assert!(is_valid_part(b"abcdefghijklmnopqrstuvwxyz0123456789_-./"));
    assert!(!is_valid_part(b""));
    for b in 0u8..=255 {
        let allowed = b.is_ascii_lowercase() || b.is_ascii_digit() || b"_-./".contains(&b);
        assert_eq!(is_valid_part(&[b]), allowed);
    }
}

#[test]
fn identifier_from_the_cursor() {
    let mut c = cursor(&[5, b'a', b':', b'b', b'/', b'c', 9]);
    let id = Identifier::decode(&mut c).unwrap();
    assert_eq!(id.namespace, "a");
    assert_eq!(id.path, "b/c");
    assert_eq!(c.as_slice(), &[9]);
    let mut c = cursor(&[3, b'A', b':', b'b']);
    assert_eq!(Identifier::decode(&mut c), Err(DecodeError::InvalidEncoding));
    assert_eq!(c.remaining(), 4);
    let mut c = cursor(&[3, b'a', b':']);
    assert_eq!(Identifier::decode(&mut c), Err(DecodeError::UnexpectedEnd));
    let mut c = cursor(&[2, 0xc3, 0x28]);
    assert_eq!(Identifier::decode(&mut c), Err(DecodeError::InvalidEncoding));
}

#[test]
fn identifier_is_written_with_its_namespace() {
    let id = Identifier::from_bytes(b"stone").unwrap();
    let mut w = WriteBuf::new();
    assert_eq!(id.encode(&mut w), Ok(()));
    let mut expected = vec![15u8];
    expected.extend_from_slice(b"minecraft:stone");
    assert_eq!(w.as_slice(), &expected[..]);
    let mut c = ReadBuf::new(w.into_bytes());
    assert_eq!(Identifier::decode(&mut c), Ok(id));
}

#[test]
fn identifier_write_is_all_or_nothing() {
    let id = Identifier { namespace: "a".to_string(), path: "b".to_string() };
    let mut w = WriteBuf::with_limit(3);
    assert_eq!(id.encode(&mut w), Err(EncodeError::CapacityExceeded));
    assert_eq!(w.len(), 0);
    let mut w = WriteBuf::with_limit(4);
    assert_eq!(id.encode(&mut w), Ok(()));
    assert_eq!(w.as_slice(), &[3, b'a', b':', b'b']);
}

#[test]
fn position_packing() {
    let p = WorldPosition { x: 18357644, y: 831, z: -20882616 };
    assert_eq!(p.pack(), 0x4607632C15B4833F);
    let p = WorldPosition { x: 1, y: 2, z: 3 };
    assert_eq!(p.pack(), (1u64 << 38) | (3u64 << 12) | 2);
    let p = WorldPosition { x: -1, y: -1, z: -1 };
    assert_eq!(p.pack(), u64::MAX);
    let p = WorldPosition { x: 0, y: 0, z: 0 };
    assert_eq!(p.pack(), 0);
    let p = WorldPosition { x: i32::MIN, y: i32::MAX, z: i32::MAX };
    assert_eq!(p.pack(), (0x3ff_ffffu64 << 12) | 0xfff);
    let mut w = WriteBuf::new();
    let p = WorldPosition { x: 18357644, y: 831, z: -20882616 };
    assert_eq!(p.encode(&mut w), Ok(()));
    assert_eq!(w.as_slice(), &[0x46, 0x07, 0x63, 0x2c, 0x15, 0xb4, 0x83, 0x3f]);
}

#[test]
fn fixed_bit_set() {
    let mut c = cursor(&[0xa5, 0x01, 0x02, 0x03]);
    assert_eq!(c.try_get_fixed_bitset(0).map(|b| b.to_vec()), Ok(vec![]));
    assert_eq!(c.try_get_fixed_bitset(1).map(|b| b.to_vec()), Ok(vec![0xa5]));
    assert_eq!(c.try_get_fixed_bitset(9).map(|b| b.to_vec()), Ok(vec![0x01, 0x02]));
    assert_eq!(c.try_get_fixed_bitset(9).map(|b| b.to_vec()), Err(DecodeError::UnexpectedEnd));
    assert_eq!(c.try_get_fixed_bitset(usize::MAX).map(|b| b.len()), Err(DecodeError::UnexpectedEnd));
    assert_eq!(c.try_get_fixed_bitset(8).map(|b| b.to_vec()), Ok(vec![0x03]));
    let mut c = cursor(&[1, 2, 3]);
    assert_eq!(c.try_get_fixed_bitset(20).map(|b| b.to_vec()), Ok(vec![1, 2, 3]));
    let mut w = WriteBuf::with_limit(3);
    assert_eq!(w.put_bit_set(&Bytes::from(vec![0xf0, 0x0f])), Ok(()));
    assert_eq!(w.put_bit_set(&Bytes::from(vec![1, 2])), Err(EncodeError::CapacityExceeded));
    assert_eq!(w.as_slice(), &[0xf0, 0x0f]);
}
