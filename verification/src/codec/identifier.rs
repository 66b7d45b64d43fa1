//! Namespaced identifiers, `namespace:path`.

use vstd::prelude::*;
use vstd::slice::{slice_subrange, slice_to_vec};
use vstd::utf8::{
    decode_utf8, decode_utf8_encode_utf8, encode_utf8, encode_utf8_decode_utf8,
    encode_utf8_valid_utf8, is_ascii_chars, is_ascii_chars_encode_utf8, valid_utf8,
};
use crate::bytebuf::read::{lemma_text_round_trip, parse_text, ReadBuf, MAX_STRING_LEN};
use crate::bytebuf::write::{put_outcome, WriteBuf};
use crate::codec::var_int::{signed_of, var_int_bytes, VarInt};
use crate::error::{DecodeError, EncodeError};

verus! {

/// The byte that parts the namespace from the path.
pub const COLON: u8 = 0x3a;

/// A name for a resource: a namespace and a path, each of them not empty
/// and made of lower-case letters, digits, `_`, `-`, `.` and `/`.
#[derive(Debug, Clone, PartialEq, Eq)]
pub struct Identifier {
    pub namespace: String,
    pub path: String,
}

/// Whether `b` may stand in a namespace or a path.
pub open spec fn is_identifier_byte(b: u8) -> bool {
    (0x61 <= b <= 0x7a) || (0x30 <= b <= 0x39) || b == 0x5f || b == 0x2d || b == 0x2e || b == 0x2f
}

/// Whether `part` can be a namespace or a path.
pub open spec fn valid_part(part: Seq<u8>) -> bool {
    part.len() > 0 && forall|i: int| 0 <= i < part.len() ==> is_identifier_byte(#[trigger] part[i])
}

/// The namespace that is meant where none is written: `minecraft`.
pub open spec fn default_namespace() -> Seq<u8> {
    seq![0x6du8, 0x69u8, 0x6eu8, 0x65u8, 0x63u8, 0x72u8, 0x61u8, 0x66u8, 0x74u8]
}

/// The namespace and the path that `text` names: what stands before and
/// after its first colon, or the default namespace and all of `text` where
/// it has no colon.
pub open spec fn split_identifier(text: Seq<u8>) -> (Seq<u8>, Seq<u8>) {
    match text.index_of_first(COLON) {
        Some(at) => (text.take(at), text.skip(at + 1)),
        None => (default_namespace(), text),
    }
}

/// The identifier that `text` names, or `InvalidEncoding` where one of its
/// parts is empty or holds a byte that an identifier cannot have.
pub open spec fn parse_identifier_text(text: Seq<u8>) -> Result<(Seq<u8>, Seq<u8>), DecodeError> {
    let (namespace, path) = split_identifier(text);
    if valid_part(namespace) && valid_part(path) {
        Ok((namespace, path))
    } else {
        Err(DecodeError::InvalidEncoding)
    }
}

/// An identifier at the front of `s`: a string, then split at its first colon.
pub open spec fn parse_identifier(s: Seq<u8>) -> Result<((Seq<u8>, Seq<u8>), nat), DecodeError> {
    match parse_text(s, MAX_STRING_LEN as nat) {
        Ok((text, n)) => match parse_identifier_text(text) {
            Ok(parts) => Ok((parts, n)),
            Err(e) => Err(e),
        },
        Err(e) => Err(e),
    }
}

/// The bytes of an identifier on the wire: the string `namespace:path`,
/// with the namespace always written out.
pub open spec fn identifier_bytes(namespace: Seq<char>, path: Seq<char>) -> Seq<u8> {
    let text = encode_utf8(namespace) + seq![COLON] + encode_utf8(path);
    var_int_bytes(signed_of(text.len())) + text
}

/// Bytes below 0x80 are UTF-8 as they stand, one character a byte.
pub proof fn lemma_ascii_is_utf8(bytes: Seq<u8>)
    requires
        forall|i: int| 0 <= i < bytes.len() ==> bytes[i] < 0x80,
    ensures
        valid_utf8(bytes),
        decode_utf8(bytes) == Seq::new(bytes.len(), |i: int| bytes[i] as char),
{
    let chars = Seq::new(bytes.len(), |i: int| bytes[i] as char);
    assert(is_ascii_chars(chars));
    is_ascii_chars_encode_utf8(chars);
    assert(encode_utf8(chars) =~= bytes);
    encode_utf8_valid_utf8(chars);
    encode_utf8_decode_utf8(chars);
}

/// Whether `part` can be a namespace or a path.
pub fn is_valid_part(part: &[u8]) -> (ok: bool)
    ensures
        ok == valid_part(part@),
{
    if part.len() == 0 {
        return false;
    }
    let mut i: usize = 0;
    while i < part.len()
        invariant
            i <= part.len(),
            forall|j: int| 0 <= j < i ==> is_identifier_byte(#[trigger] part@[j]),
        decreases part.len() - i,
    {
        let b: u8 = part[i];
        let ok: bool = (0x61 <= b && b <= 0x7a) || (0x30 <= b && b <= 0x39) || b == 0x5f || b
            == 0x2d || b == 0x2e || b == 0x2f;
        if !ok {
            return false;
        }
        i = i + 1;
    }
    true
}

/// The string of a part that was found valid.
fn part_to_string(part: &[u8]) -> (text: String)
    requires
        valid_part(part@),
    ensures
        text@ == decode_utf8(part@),
{
    proof {
        lemma_ascii_is_utf8(part@);
    }
    match String::from_utf8(slice_to_vec(part)) {
        Ok(text) => text,
        Err(_) => String::new(),
    }
}

/// The place of the first colon in `text`, if it has one.
fn find_colon(text: &[u8]) -> (at: Option<usize>)
    ensures
        match at {
            Some(i) => i < text@.len() && text@.index_of_first(COLON) == Some(i as int),
            None => text@.index_of_first(COLON) is None,
        },
{
    let mut i: usize = 0;
    while i < text.len()
        invariant
            i <= text.len(),
            forall|j: int| 0 <= j < i ==> text@[j] != COLON,
        decreases text.len() - i,
    {
        if text[i] == COLON {
            proof {
                text@.index_of_first_ensures(COLON);
                assert(text@[i as int] == COLON);
                assert(text@.contains(COLON));
            }
            return Some(i);
        }
        i = i + 1;
    }
    proof {
        text@.index_of_first_ensures(COLON);
    }
    None
}

impl Identifier {
    /// The identifier that `text` names. Without a colon the namespace is
    /// `minecraft`.
    pub fn from_bytes(text: &[u8]) -> (r: Result<Identifier, DecodeError>)
        ensures
            match parse_identifier_text(text@) {
                Ok((namespace, path)) => r is Ok && r->Ok_0.namespace@ == decode_utf8(namespace)
                    && r->Ok_0.path@ == decode_utf8(path),
                Err(e) => r is Err && r->Err_0 == e,
            },
    {
        let standard: &[u8] = "minecraft".as_bytes();
        proof {
            reveal_strlit("minecraft");
            is_ascii_chars_encode_utf8("minecraft"@);
            assert(standard@ =~= default_namespace());
        }
        let end: usize = text.len();
        let colon: Option<usize> = find_colon(text);
        let namespace: &[u8] = match colon {
            Some(at) => slice_subrange(text, 0, at),
            None => standard,
        };
        let path: &[u8] = match colon {
            Some(at) => slice_subrange(text, at + 1, end),
            None => text,
        };
        if !is_valid_part(namespace) || !is_valid_part(path) {
            return Err(DecodeError::InvalidEncoding);
        }
        Ok(Identifier { namespace: part_to_string(namespace), path: part_to_string(path) })
    }

    /// Reads an identifier: a string, split at its first colon.
    pub fn decode(bytebuf: &mut ReadBuf) -> (r: Result<Identifier, DecodeError>)
        ensures
            match parse_identifier(old(bytebuf)@) {
                Ok(((namespace, path), n)) => r is Ok && r->Ok_0.namespace@ == decode_utf8(
                    namespace,
                ) && r->Ok_0.path@ == decode_utf8(path) && final(bytebuf)@ == old(bytebuf)@.skip(
                    n as int,
                ),
                Err(e) => r is Err && r->Err_0 == e && final(bytebuf)@ == old(bytebuf)@,
            },
    {
        let mark: ReadBuf = bytebuf.checkpoint();
        let text: String = match bytebuf.try_get_string() {
            Ok(text) => text,
            Err(e) => {
                return Err(e);
            },
        };
        proof {
            let body = parse_text(old(bytebuf)@, MAX_STRING_LEN as nat)->Ok_0.0;
            decode_utf8_encode_utf8(body);
        }
        match Identifier::from_bytes(text.as_str().as_bytes()) {
            Ok(id) => Ok(id),
            Err(e) => {
                bytebuf.rewind(mark);
                Err(e)
            },
        }
    }

    /// Writes the identifier as the string `namespace:path`.
    pub fn encode(&self, bytebuf: &mut WriteBuf) -> (r: Result<(), EncodeError>)
        requires
            old(bytebuf).wf(),
        ensures
            put_outcome(
                *old(bytebuf),
                *final(bytebuf),
                identifier_bytes(self.namespace@, self.path@),
                r,
            ),
    {
        let namespace: &[u8] = self.namespace.as_str().as_bytes();
        let path: &[u8] = self.path.as_str().as_bytes();
        let room: usize = bytebuf.remaining_capacity();
        if namespace.len() >= room || path.len() >= room - namespace.len() {
            return Err(EncodeError::CapacityExceeded);
        }
        let total: usize = namespace.len() + 1 + path.len();
        let prefix: Vec<u8> = VarInt(total as i32).to_bytes();
        if prefix.len() > room - total {
            return Err(EncodeError::CapacityExceeded);
        }
        let mut text: Vec<u8> = prefix;
        text.extend_from_slice(namespace);
        text.push(COLON);
        text.extend_from_slice(path);
        assert(text@ =~= identifier_bytes(self.namespace@, self.path@));
        bytebuf.put_slice(text.as_slice())
    }
}

/// The text `namespace:path` splits at its colon into the two parts, where
/// the parts are valid.
proof fn lemma_split_joined(first: Seq<u8>, second: Seq<u8>)
    requires
        valid_part(first),
        valid_part(second),
    ensures
        split_identifier(first + seq![COLON] + second) == (first, second),
        forall|i: int|
            0 <= i < (first + seq![COLON] + second).len() ==> (first + seq![COLON] + second)[i]
                < 0x80,
{
    let text = first + seq![COLON] + second;
    let at = first.len() as int;
    assert forall|i: int| 0 <= i < text.len() implies text[i] < 0x80 by {
        if i < at {
            assert(is_identifier_byte(first[i]));
        } else if i > at {
            assert(is_identifier_byte(second[i - at - 1]));
        }
    }
    text.index_of_first_ensures(COLON);
    assert(text[at] == COLON);
    assert(text.contains(COLON));
    let found = text.index_of_first(COLON)->Some_0;
    if found < at {
        assert(is_identifier_byte(first[found]));
    }
    assert(found == at);
    assert(text.take(at) =~= first);
    assert(text.skip(at + 1) =~= second);
}

/// An identifier with valid parts that was written reads back as the same
/// namespace and path, whatever follows it, where it is no longer than a
/// string may be.
pub proof fn lemma_identifier_round_trip(namespace: Seq<char>, path: Seq<char>, rest: Seq<u8>)
    requires
        valid_part(encode_utf8(namespace)),
        valid_part(encode_utf8(path)),
        encode_utf8(namespace).len() + 1 + encode_utf8(path).len() <= MAX_STRING_LEN,
    ensures
        parse_identifier(identifier_bytes(namespace, path) + rest) == Ok::<
            ((Seq<u8>, Seq<u8>), nat),
            DecodeError,
        >(
            (
                (encode_utf8(namespace), encode_utf8(path)),
                identifier_bytes(namespace, path).len(),
            ),
        ),
        decode_utf8(encode_utf8(namespace)) == namespace,
        decode_utf8(encode_utf8(path)) == path,
{
    let first = encode_utf8(namespace);
    let second = encode_utf8(path);
    let text = first + seq![COLON] + second;
    lemma_split_joined(first, second);
    assert(valid_utf8(text)) by {
        lemma_ascii_is_utf8(text);
    }
    assert(signed_of(text.len()) == text.len() as i32);
    assert(identifier_bytes(namespace, path) + rest =~= var_int_bytes(text.len() as i32) + text
        + rest);
    lemma_text_round_trip(text, MAX_STRING_LEN as nat, rest);
    assert(decode_utf8(first) == namespace) by {
        encode_utf8_decode_utf8(namespace);
    }
    assert(decode_utf8(second) == path) by {
        encode_utf8_decode_utf8(path);
    }
}

} // verus!
