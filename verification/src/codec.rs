use vstd::bytes::lemma_auto_spec_u64_to_from_le_bytes;
use vstd::bytes::spec_u64_from_le_bytes;
use vstd::bytes::spec_u64_to_le_bytes;
use vstd::bytes::u64_from_le_bytes;
use vstd::bytes::u64_to_le_bytes;
use vstd::prelude::*;
use vstd::string::StringSliceAdditionalSpecFns;
use vstd::utf8::encode_utf8;
use vstd::utf8::encode_utf8_decode_utf8;

verus! {

// The dedup store persists fingerprints and first-seen times as bytes. The
// encoding must be deterministic and stable across process restarts: the same
// logical key always encodes to the same bytes. It is also injective, which
// the isolation properties of the pipeline rest on.
/// A string is encoded as the byte length of its UTF-8 form, as eight
/// little-endian bytes, followed by the UTF-8 bytes themselves.
pub open spec fn enc_str(s: Seq<char>) -> Seq<u8> {
    spec_u64_to_le_bytes(encode_utf8(s).len() as u64) + encode_utf8(s)
}

/// The length prefix is honest when the UTF-8 form fits in eight bytes; this
/// holds of the view of every executable string.
pub open spec fn str_fits(s: Seq<char>) -> bool {
    encode_utf8(s).len() <= u64::MAX
}

/// Appends the encoding of `s` to `out`.
pub fn encode_str_into(s: &str, out: &mut Vec<u8>)
    ensures
        final(out)@ == old(out)@ + enc_str(s@),
{
    let bytes: &[u8] = s.as_bytes();
    let n: u64 = bytes.len() as u64;
    let mut prefix = u64_to_le_bytes(n);
    out.append(&mut prefix);
    out.extend_from_slice(bytes);
}

/// From a byte sequence that starts with an encoded string, both the string
/// and the remainder of the sequence are determined: the length prefix fixes
/// where the UTF-8 bytes end, and UTF-8 decoding fixes the characters.
pub proof fn lemma_enc_str_prefix(s1: Seq<char>, r1: Seq<u8>, s2: Seq<char>, r2: Seq<u8>)
    requires
        str_fits(s1),
        str_fits(s2),
        enc_str(s1) + r1 == enc_str(s2) + r2,
    ensures
        s1 == s2,
        r1 == r2,
{
    lemma_auto_spec_u64_to_from_le_bytes();
    let b1 = encode_utf8(s1);
    let b2 = encode_utf8(s2);
    let n1 = b1.len() as u64;
    let n2 = b2.len() as u64;
    let all = enc_str(s1) + r1;
    assert(all.subrange(0, 8) =~= spec_u64_to_le_bytes(n1));
    assert(all.subrange(0, 8) =~= spec_u64_to_le_bytes(n2));
    assert(n1 == n2) by {
        assert(spec_u64_from_le_bytes(spec_u64_to_le_bytes(n1)) == n1);
        assert(spec_u64_from_le_bytes(spec_u64_to_le_bytes(n2)) == n2);
    }
    assert(b1.len() == b2.len());
    let m = b1.len() as int;
    assert(b1 =~= all.subrange(8, 8 + m));
    assert(b2 =~= all.subrange(8, 8 + m));
    encode_utf8_decode_utf8(s1);
    encode_utf8_decode_utf8(s2);
    assert(s1 == s2);
    assert(r1 =~= all.subrange(8 + m, all.len() as int));
    assert(r2 =~= all.subrange(8 + m, all.len() as int));
}

/// A first-seen time is stored as its eight little-endian bytes.
pub open spec fn ts_enc(t: u64) -> Seq<u8> {
    spec_u64_to_le_bytes(t)
}

pub fn encode_ts(t: u64) -> (r: Vec<u8>)
    ensures
        r@ == ts_enc(t),
{
    u64_to_le_bytes(t)
}

/// Reads a stored first-seen time back; every eight-byte value decodes, and
/// decodes to the time whose encoding it is.
pub fn decode_ts(b: &Vec<u8>) -> (r: Option<u64>)
    ensures
        match r {
            Some(t) => b@ == ts_enc(t),
            None => b@.len() != 8,
        },
{
    if b.len() == 8 {
        proof {
            lemma_auto_spec_u64_to_from_le_bytes();
        }
        Some(u64_from_le_bytes(b.as_slice()))
    } else {
        None
    }
}

/// A stored time round-trips exactly: encoding then decoding returns it.
pub proof fn lemma_ts_round_trip(t: u64)
    ensures
        ts_enc(t).len() == 8,
        spec_u64_from_le_bytes(ts_enc(t)) == t,
{
    lemma_auto_spec_u64_to_from_le_bytes();
}

} // verus!
