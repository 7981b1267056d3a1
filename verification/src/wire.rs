//! Payloads: the byte buffers that frames carry and the values that the
//! library itself puts into them.

use bytes::Bytes;
use vstd::prelude::*;
use vstd::utf8::encode_utf8;

verus! {

/// A reference-counted byte buffer of the `bytes` crate.
#[verifier::external_type_specification]
#[verifier::external_body]
pub struct ExBytes(bytes::Bytes);

/// The bytes that a buffer holds.
pub uninterp spec fn buffer_contents(buffer: Bytes) -> Seq<u8>;

/// `Bytes::from` of a vector: a buffer that holds the bytes of the vector.
#[verifier::external_body]
pub(crate) fn buffer_from(bytes: Vec<u8>) -> (buffer: Bytes)
    ensures
        buffer_contents(buffer) == bytes@,
{
    Bytes::from(bytes)
}

/// `Bytes::deref`: the bytes of the buffer as a slice.
#[verifier::external_body]
pub(crate) fn buffer_slice(buffer: &Bytes) -> (bytes: &[u8])
    ensures
        bytes@ == buffer_contents(*buffer),
{
    buffer
}

/// A length as `postcard` writes it: seven bits to a byte, least significant
/// first, with the top bit set on all but the last byte.
pub open spec fn varint(n: nat) -> Seq<u8>
    decreases n,
{
    if n < 128 {
        seq![n as u8]
    } else {
        seq![(n % 128 + 128) as u8] + varint(n / 128)
    }
}

/// A string as `postcard` writes it: its length in bytes, then its bytes.
pub open spec fn encoded_string(s: Seq<char>) -> Seq<u8> {
    varint(encode_utf8(s).len()) + encode_utf8(s)
}

/// A failed result with an error text as `postcard` writes it: the index of
/// the `Err` variant, then the text.
pub open spec fn encoded_failure(error: Seq<char>) -> Seq<u8> {
    seq![1u8] + encoded_string(error)
}

/// What `postcard::from_bytes::<String>` makes of bytes that do not begin with
/// a string as `encoded_string` writes it (a length with needless bytes is
/// still read, most others are errors). How many bytes a length may have
/// depends on the number of bits of `usize`.
pub uninterp spec fn irregular_string(bytes: Seq<u8>, bits: u32) -> Option<Seq<char>>;

/// What `postcard::from_bytes::<Result<(), String>>` makes of bytes that begin
/// neither with a success nor with a failure as they are written; of bytes
/// that it rejects, the text of the error. How many bytes the length of a text
/// may have depends on the number of bits of `usize`.
pub uninterp spec fn irregular_reply(bytes: Seq<u8>, bits: u32) -> Result<
    Result<(), Seq<char>>,
    Seq<char>,
>;

/// Whether the bytes begin with a string as it is written.
pub open spec fn begins_with_string(bytes: Seq<u8>) -> bool {
    exists|s: Seq<char>| #[trigger] encoded_string(s).is_prefix_of(bytes)
}

/// Whether the bytes begin with a success as it is written: the index of the
/// `Ok` variant, and nothing for the value.
pub open spec fn begins_with_success(bytes: Seq<u8>) -> bool {
    bytes.len() > 0 && bytes[0] == 0
}

/// Whether the bytes begin with a failure as it is written.
pub open spec fn begins_with_failure(bytes: Seq<u8>) -> bool {
    exists|s: Seq<char>| #[trigger] encoded_failure(s).is_prefix_of(bytes)
}

/// The string that the bytes begin with, or `None` if they cannot be read as
/// a string.
pub open spec fn decoded_string(bytes: Seq<u8>) -> Option<Seq<char>> {
    if begins_with_string(bytes) {
        Some(choose|s: Seq<char>| #[trigger] encoded_string(s).is_prefix_of(bytes))
    } else {
        irregular_string(bytes, usize::BITS)
    }
}

/// The answer to a call without a result value, or the text of the error if
/// the bytes cannot be read as one.
pub open spec fn decoded_reply(bytes: Seq<u8>) -> Result<Result<(), Seq<char>>, Seq<char>> {
    if begins_with_success(bytes) {
        Ok(Ok(()))
    } else if begins_with_failure(bytes) {
        Ok(Err(choose|s: Seq<char>| #[trigger] encoded_failure(s).is_prefix_of(bytes)))
    } else {
        irregular_reply(bytes, usize::BITS)
    }
}

/// `postcard::to_allocvec` of a string: its length in bytes as a varint, then
/// its bytes. Writing to a growing vector does not fail.
#[verifier::external_body]
pub(crate) fn encode_string(s: &str) -> (encoded: Result<Vec<u8>, String>)
    ensures
        encoded is Ok,
        encoded->Ok_0@ == encoded_string(s@),
{
    postcard::to_allocvec(s).map_err(|e| e.to_string())
}

/// `postcard::to_allocvec` of a failed result: the variant index one, then the
/// error text as a string. Writing to a growing vector does not fail.
#[verifier::external_body]
pub(crate) fn encode_failure(error: String) -> (encoded: Result<Vec<u8>, String>)
    ensures
        encoded is Ok,
        encoded->Ok_0@ == encoded_failure(error@),
{
    postcard::to_allocvec(&Err::<(), String>(error)).map_err(|e| e.to_string())
}

/// `postcard::from_bytes` for a string: the string that the bytes begin with,
/// bytes behind it being ignored. The text of an error, which no caller uses,
/// is left open.
#[verifier::external_body]
fn read_string(bytes: &[u8]) -> (decoded: Result<String, String>)
    ensures
        match decoded {
            Ok(s) => if begins_with_string(bytes@) {
                encoded_string(s@).is_prefix_of(bytes@)
            } else {
                irregular_string(bytes@, usize::BITS) == Some(s@)
            },
            Err(_) => !begins_with_string(bytes@) && irregular_string(bytes@, usize::BITS) is None,
        },
{
    postcard::from_bytes::<String>(bytes).map_err(|e| e.to_string())
}

/// `postcard::from_bytes` for a result without a value: the variant index zero
/// is success, one is a failure whose text follows; bytes behind are ignored.
#[verifier::external_body]
fn read_reply(bytes: &[u8]) -> (decoded: Result<Result<(), String>, String>)
    ensures
        match decoded {
            Ok(Ok(())) => if begins_with_success(bytes@) {
                true
            } else {
                !begins_with_failure(bytes@) && irregular_reply(bytes@, usize::BITS) == Ok::<
                    Result<(), Seq<char>>,
                    Seq<char>,
                >(Ok(()))
            },
            Ok(Err(error)) => if begins_with_failure(bytes@) {
                encoded_failure(error@).is_prefix_of(bytes@)
            } else {
                !begins_with_success(bytes@) && irregular_reply(bytes@, usize::BITS) == Ok::<
                    Result<(), Seq<char>>,
                    Seq<char>,
                >(Err(error@))
            },
            Err(text) => !begins_with_success(bytes@) && !begins_with_failure(bytes@)
                && irregular_reply(bytes@, usize::BITS) == Err::<Result<(), Seq<char>>, Seq<char>>(text@),
        },
{
    postcard::from_bytes::<Result<(), String>>(bytes).map_err(|e| e.to_string())
}

/// Two varints that begin the same bytes are the same.
proof fn varint_is_prefix_free(m: nat, n: nat, bytes: Seq<u8>)
    requires
        varint(m).is_prefix_of(bytes),
        varint(n).is_prefix_of(bytes),
    ensures
        m == n,
    decreases m,
{
    let vm = varint(m);
    let vn = varint(n);
    assert(vm[0] == bytes[0] && vn[0] == bytes[0]) by {
        assert(bytes.take(vm.len() as int)[0] == bytes[0]);
        assert(bytes.take(vn.len() as int)[0] == bytes[0]);
    }
    if m >= 128 && n >= 128 {
        let rest = bytes.skip(1);
        assert(varint(m / 128) =~= rest.take(varint(m / 128).len() as int)) by {
            assert(vm.skip(1) =~= varint(m / 128));
        }
        assert(varint(n / 128) =~= rest.take(varint(n / 128).len() as int)) by {
            assert(vn.skip(1) =~= varint(n / 128));
        }
        varint_is_prefix_free(m / 128, n / 128, rest);
    }
}

/// Bytes begin with at most one string.
proof fn encoded_string_is_prefix_free(a: Seq<char>, b: Seq<char>, bytes: Seq<u8>)
    requires
        encoded_string(a).is_prefix_of(bytes),
        encoded_string(b).is_prefix_of(bytes),
    ensures
        a == b,
{
    let (ua, ub) = (encode_utf8(a), encode_utf8(b));
    let (va, vb) = (varint(ua.len()), varint(ub.len()));
    assert(va =~= bytes.take(va.len() as int)) by {
        assert(encoded_string(a).take(va.len() as int) =~= va);
    }
    assert(vb =~= bytes.take(vb.len() as int)) by {
        assert(encoded_string(b).take(vb.len() as int) =~= vb);
    }
    varint_is_prefix_free(ua.len(), ub.len(), bytes);
    assert(ua =~= ub) by {
        assert(encoded_string(a).skip(va.len() as int) =~= ua);
        assert(encoded_string(b).skip(vb.len() as int) =~= ub);
        assert(encoded_string(a) =~= encoded_string(b));
    }
    vstd::utf8::encode_utf8_decode_utf8(a);
    vstd::utf8::encode_utf8_decode_utf8(b);
}

/// Bytes begin with at most one failure, and then not with a success.
proof fn encoded_failure_is_prefix_free(a: Seq<char>, b: Seq<char>, bytes: Seq<u8>)
    requires
        encoded_failure(a).is_prefix_of(bytes),
        encoded_failure(b).is_prefix_of(bytes),
    ensures
        a == b,
        bytes[0] == 1,
{
    let behind = bytes.skip(1);
    assert(encoded_string(a) =~= behind.take(encoded_string(a).len() as int)) by {
        assert(encoded_failure(a).skip(1) =~= encoded_string(a));
    }
    assert(encoded_string(b) =~= behind.take(encoded_string(b).len() as int)) by {
        assert(encoded_failure(b).skip(1) =~= encoded_string(b));
    }
    encoded_string_is_prefix_free(a, b, behind);
    assert(encoded_failure(a)[0] == 1u8);
}

/// Reads a string; bytes behind it are ignored.
pub fn decode_string(bytes: &[u8]) -> (decoded: Option<String>)
    ensures
        match decoded {
            Some(s) => decoded_string(bytes@) == Some(s@),
            None => decoded_string(bytes@) is None,
        },
{
    match read_string(bytes) {
        Ok(s) => {
            proof {
                if begins_with_string(bytes@) {
                    let t = choose|t: Seq<char>| #[trigger]
                        encoded_string(t).is_prefix_of(bytes@);
                    encoded_string_is_prefix_free(s@, t, bytes@);
                }
            }
            Some(s)
        },
        Err(_) => None,
    }
}

/// Reads the answer to a call without a result value; bytes behind it are
/// ignored.
pub fn decode_reply(bytes: &[u8]) -> (decoded: Result<Result<(), String>, String>)
    ensures
        match decoded {
            Ok(Ok(())) => decoded_reply(bytes@) == Ok::<Result<(), Seq<char>>, Seq<char>>(Ok(())),
            Ok(Err(error)) => decoded_reply(bytes@) == Ok::<Result<(), Seq<char>>, Seq<char>>(
                Err(error@),
            ),
            Err(text) => decoded_reply(bytes@) == Err::<Result<(), Seq<char>>, Seq<char>>(text@),
        },
{
    let decoded = read_reply(bytes);
    proof {
        if let Ok(Err(error)) = &decoded {
            if begins_with_failure(bytes@) {
                let t = choose|t: Seq<char>| #[trigger] encoded_failure(t).is_prefix_of(bytes@);
                encoded_failure_is_prefix_free(error@, t, bytes@);
            }
        }
    }
    decoded
}

/// A string is read back from what it was written to, whatever follows.
pub proof fn string_round_trip(s: Seq<char>, rest: Seq<u8>)
    ensures
        decoded_string(encoded_string(s) + rest) == Some(s),
{
    let bytes = encoded_string(s) + rest;
    assert(bytes.take(encoded_string(s).len() as int) =~= encoded_string(s));
    assert(encoded_string(s).is_prefix_of(bytes));
    let t = choose|t: Seq<char>| #[trigger] encoded_string(t).is_prefix_of(bytes);
    encoded_string_is_prefix_free(s, t, bytes);
}

/// The error text of a failed call is read back from the answer that it was
/// written to, whatever follows.
pub proof fn failure_round_trip(error: Seq<char>, rest: Seq<u8>)
    ensures
        decoded_reply(encoded_failure(error) + rest) == Ok::<Result<(), Seq<char>>, Seq<char>>(
            Err(error),
        ),
{
    let bytes = encoded_failure(error) + rest;
    assert(bytes.take(encoded_failure(error).len() as int) =~= encoded_failure(error));
    assert(encoded_failure(error).is_prefix_of(bytes));
    let t = choose|t: Seq<char>| #[trigger] encoded_failure(t).is_prefix_of(bytes);
    encoded_failure_is_prefix_free(error, t, bytes);
}

/// The answer of a call that succeeded without a value begins with a zero byte,
/// whatever follows.
pub proof fn success_is_read(rest: Seq<u8>)
    ensures
        decoded_reply(seq![0u8] + rest) == Ok::<Result<(), Seq<char>>, Seq<char>>(Ok(())),
{
}

} // verus!
