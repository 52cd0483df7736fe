//! Byte-level building blocks of the frame format: little-endian integers and
//! length-prefixed UTF-8 text.
use vstd::bytes::*;
use vstd::prelude::*;
use vstd::slice::*;
use vstd::utf8::*;

verus! {

/// `x` stands in `b` starting at `pos`.
pub open spec fn at(b: Seq<u8>, pos: int, x: Seq<u8>) -> bool {
    0 <= pos && pos + x.len() <= b.len() && b.subrange(pos, pos + x.len()) == x
}

/// A text field: its UTF-8 byte count as a little-endian `u64`, then the bytes.
pub open spec fn text_bytes(s: Seq<char>) -> Seq<u8> {
    spec_u64_to_le_bytes(encode_utf8(s).len() as u64) + encode_utf8(s)
}

/// Two pieces stand one after the other exactly when their concatenation stands.
pub proof fn lemma_at_concat(b: Seq<u8>, pos: int, x: Seq<u8>, y: Seq<u8>)
    ensures
        at(b, pos, x + y) <==> (at(b, pos, x) && at(b, pos + x.len(), y)),
{
    if at(b, pos, x + y) {
        assert(b.subrange(pos, pos + x.len()) =~= (x + y).subrange(0, x.len() as int));
        assert(b.subrange(pos + x.len(), pos + x.len() + y.len()) =~= (x + y).subrange(
            x.len() as int,
            (x.len() + y.len()) as int,
        ));
        assert((x + y).subrange(0, x.len() as int) =~= x);
        assert((x + y).subrange(x.len() as int, (x.len() + y.len()) as int) =~= y);
    }
    if at(b, pos, x) && at(b, pos + x.len(), y) {
        assert(b.subrange(pos, pos + (x + y).len()) =~= x + y);
    }
}

/// A little-endian `u32` determines its value.
pub proof fn lemma_u32_bytes_injective(x: u32, y: u32)
    requires
        spec_u32_to_le_bytes(x) == spec_u32_to_le_bytes(y),
    ensures
        x == y,
{
    lemma_auto_spec_u32_to_from_le_bytes();
    assert(spec_u32_to_le_bytes(x).len() == 4);
    assert(spec_u32_to_le_bytes(y).len() == 4);
}

/// Length facts of the integer encodings.
pub proof fn lemma_int_bytes_len(x: u32, y: u64)
    ensures
        spec_u32_to_le_bytes(x).len() == 4,
        spec_u64_to_le_bytes(y).len() == 8,
{
    lemma_auto_spec_u32_to_from_le_bytes();
    assert(spec_u32_to_le_bytes(x).len() == 4);
    lemma_auto_spec_u64_to_from_le_bytes();
}

/// At a given position of a buffer that fits in memory, at most one text field
/// can start.
pub proof fn lemma_text_unique(b: Seq<u8>, pos: int, s: Seq<char>, t: Seq<char>)
    requires
        b.len() <= u64::MAX,
        at(b, pos, text_bytes(s)),
        at(b, pos, text_bytes(t)),
    ensures
        s == t,
{
    lemma_auto_spec_u64_to_from_le_bytes();
    let es = encode_utf8(s);
    let et = encode_utf8(t);
    lemma_at_concat(b, pos, spec_u64_to_le_bytes(es.len() as u64), es);
    lemma_at_concat(b, pos, spec_u64_to_le_bytes(et.len() as u64), et);
    assert(spec_u64_to_le_bytes(es.len() as u64) == spec_u64_to_le_bytes(et.len() as u64));
    assert(es.len() as u64 == et.len() as u64);
    assert(es.len() == et.len());
    assert(es == et);
    encode_utf8_decode_utf8(s);
    encode_utf8_decode_utf8(t);
}

/// Appends `bytes` to `out`.
pub fn push_bytes(out: &mut Vec<u8>, bytes: &[u8])
    ensures
        final(out)@ == old(out)@ + bytes@,
{
    let mut i: usize = 0;
    while i < bytes.len()
        invariant
            i <= bytes@.len(),
            out@ == old(out)@ + bytes@.subrange(0, i as int),
        decreases bytes@.len() - i,
    {
        out.push(bytes[i]);
        i = i + 1;
        assert(out@ =~= old(out)@ + bytes@.subrange(0, i as int));
    }
    assert(bytes@.subrange(0, i as int) =~= bytes@);
}

/// Appends the little-endian bytes of `x` to `out`.
pub fn push_u32(out: &mut Vec<u8>, x: u32)
    ensures
        final(out)@ == old(out)@ + spec_u32_to_le_bytes(x),
{
    let bytes = u32_to_le_bytes(x);
    push_bytes(out, bytes.as_slice());
}

/// Appends the text field of `s` to `out`.
pub fn push_text(out: &mut Vec<u8>, s: &str)
    ensures
        final(out)@ == old(out)@ + text_bytes(s@),
{
    let utf8 = s.as_bytes();
    let n = utf8.len() as u64;
    let prefix = u64_to_le_bytes(n);
    push_bytes(out, prefix.as_slice());
    push_bytes(out, utf8);
    assert(final(out)@ =~= old(out)@ + text_bytes(s@)) by {
        assert(utf8@ == encode_utf8(s@));
    }
}

/// Reads the little-endian `u32` that starts at `pos`, if four bytes remain.
pub fn read_u32(b: &[u8], pos: usize) -> (r: Option<u32>)
    ensures
        match r {
            Some(x) => at(b@, pos as int, spec_u32_to_le_bytes(x)),
            None => b@.len() < pos + 4 && forall|x: u32| !at(b@, pos as int, spec_u32_to_le_bytes(x)),
        },
{
    proof {
        lemma_auto_spec_u32_to_from_le_bytes();
    }
    if b.len() < 4 || pos > b.len() - 4 {
        return None;
    }
    let x = u32_from_le_bytes(slice_subrange(b, pos, pos + 4));
    Some(x)
}

/// The error of `String::from_utf8`, carried only to be told apart from success.
#[verifier::external_type_specification]
#[verifier::external_body]
pub struct ExFromUtf8Error(std::string::FromUtf8Error);

/// The characters whose UTF-8 encoding `bytes` is, when it is one.
///
/// Relies on `String::from_utf8`: it succeeds exactly on valid UTF-8 and then
/// holds the characters that the bytes encode.
#[verifier::external_body]
fn string_from_utf8(bytes: Vec<u8>) -> (r: Result<String, std::string::FromUtf8Error>)
    ensures
        match r {
            Ok(s) => valid_utf8(bytes@) && s@ == decode_utf8(bytes@),
            Err(_) => !valid_utf8(bytes@),
        },
{
    String::from_utf8(bytes)
}

/// Reads the text field that starts at `pos`, with the position after it.
pub fn read_text(b: &[u8], pos: usize) -> (r: Option<(String, usize)>)
    requires
        pos <= b@.len(),
    ensures
        match r {
            Some((s, end)) => end == pos + text_bytes(s@).len() && at(b@, pos as int, text_bytes(s@)),
            None => forall|t: Seq<char>| !at(b@, pos as int, #[trigger] text_bytes(t)),
        },
{
    proof {
        lemma_auto_spec_u64_to_from_le_bytes();
    }
    let len = b.len();
    if len - pos < 8 {
        proof {
            assert forall|t: Seq<char>| !at(b@, pos as int, #[trigger] text_bytes(t)) by {
                assert(spec_u64_to_le_bytes(encode_utf8(t).len() as u64).len() == 8);
            }
        }
        return None;
    }
    let n64 = u64_from_le_bytes(slice_subrange(b, pos, pos + 8));
    let rest = len - pos - 8;
    if n64 > rest as u64 {
        proof {
            assert forall|t: Seq<char>| !at(b@, pos as int, #[trigger] text_bytes(t)) by {
                let et = encode_utf8(t);
                lemma_at_concat(b@, pos as int, spec_u64_to_le_bytes(et.len() as u64), et);
            }
        }
        return None;
    }
    let n = n64 as usize;
    let bytes = slice_to_vec(slice_subrange(b, pos + 8, pos + 8 + n));
    let ghost bv = bytes@;
    match string_from_utf8(bytes) {
        Ok(s) => {
            proof {
                decode_utf8_encode_utf8(bv);
                assert(spec_u64_to_le_bytes(n64) =~= b@.subrange(pos as int, pos + 8));
                lemma_at_concat(b@, pos as int, spec_u64_to_le_bytes(n64), bv);
            }
            Some((s, pos + 8 + n))
        },
        Err(_) => {
            proof {
                assert forall|t: Seq<char>| !at(b@, pos as int, #[trigger] text_bytes(t)) by {
                    let et = encode_utf8(t);
                    lemma_at_concat(b@, pos as int, spec_u64_to_le_bytes(et.len() as u64), et);
                    if at(b@, pos as int, text_bytes(t)) {
                        assert(et.len() == n);
                        assert(et =~= bv);
                        encode_utf8_valid_utf8(t);
                    }
                }
            }
            None
        },
    }
}

} // verus!
