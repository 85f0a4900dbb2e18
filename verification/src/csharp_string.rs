//! The length-prefixed string codec.
//!
//! On disk a string is one length byte `n` (0–255) followed by exactly `n`
//! UTF-8 bytes. In memory it is `CSharpString`, which holds the UTF-8 bytes
//! and nothing else; re-encodability within 255 bytes is checked at write
//! time, so an oversized value fails with `StringTooLong` rather than being
//! truncated.

use vstd::prelude::*;
use vstd::slice::{slice_subrange, slice_to_vec};

use crate::error::CodecError;
use crate::primitive::read_u8;
use crate::utf8::{is_utf8, validate_utf8};

verus! {

/// A text value stored as its UTF-8 bytes, encoded with a 1-byte length prefix.
#[derive(Debug)]
pub struct CSharpString {
    bytes: Vec<u8>,
}

impl View for CSharpString {
    type V = Seq<u8>;

    closed spec fn view(&self) -> Seq<u8> {
        self.bytes@
    }
}

impl CSharpString {
    #[verifier::type_invariant]
    spec fn type_inv(self) -> bool {
        is_utf8(self.bytes@)
    }

    /// Wraps a byte sequence as text; a sequence that is not valid UTF-8 is
    /// rejected with `InvalidEncoding`.
    pub fn new(bytes: Vec<u8>) -> (r: Result<CSharpString, CodecError>)
        ensures
            is_utf8(bytes@) ==> (r matches Ok(s) && s@ == bytes@),
            !is_utf8(bytes@) ==> (r matches Err(e) && e == CodecError::InvalidEncoding),
    {
        if validate_utf8(bytes.as_slice()) {
            Ok(CSharpString { bytes })
        } else {
            Err(CodecError::InvalidEncoding)
        }
    }

    pub fn as_bytes(&self) -> (r: &[u8])
        ensures
            r@ == self@,
    {
        self.bytes.as_slice()
    }

    pub fn byte_len(&self) -> (r: usize)
        ensures
            r == self@.len(),
    {
        self.bytes.len()
    }
}

/// The on-disk form of a string whose UTF-8 bytes are `sb`: a length byte,
/// then the bytes. Meaningful when `sb.len() <= 255`.
pub open spec fn enc_csharp(sb: Seq<u8>) -> Seq<u8>
    recommends
        sb.len() <= 255,
{
    seq![sb.len() as u8] + sb
}

/// Total description of decoding a length-prefixed string at `pos`.
pub open spec fn dec_csharp(b: Seq<u8>, pos: int) -> Result<(Seq<u8>, int), CodecError>
    recommends
        0 <= pos,
{
    if pos + 1 > b.len() {
        Err(CodecError::TruncatedInput)
    } else {
        let n = b[pos] as int;
        if pos + 1 + n > b.len() {
            Err(CodecError::TruncatedInput)
        } else {
            let sb = b.subrange(pos + 1, pos + 1 + n);
            if is_utf8(sb) {
                Ok((sb, pos + 1 + n))
            } else {
                Err(CodecError::InvalidEncoding)
            }
        }
    }
}

pub fn read_csharp_string(data: &[u8], pos: usize) -> (r: Result<(CSharpString, usize), CodecError>)
    ensures
        match dec_csharp(data@, pos as int) {
            Ok((sb, n)) => r matches Ok((s, rn)) && s@ == sb && rn as int == n,
            Err(e) => r matches Err(e2) && e2 == e,
        },
{
    let (len_byte, body_pos) = match read_u8(data, pos) {
        Ok(v) => v,
        Err(e) => {
            return Err(e);
        },
    };
    let n = len_byte as usize;
    if data.len() < n || body_pos > data.len() - n {
        return Err(CodecError::TruncatedInput);
    }
    let body = slice_subrange(data, body_pos, body_pos + n);
    if validate_utf8(body) {
        Ok((CSharpString { bytes: slice_to_vec(body) }, body_pos + n))
    } else {
        Err(CodecError::InvalidEncoding)
    }
}

pub fn write_csharp_string(out: &mut Vec<u8>, s: &CSharpString) -> (r: Result<(), CodecError>)
    ensures
        s@.len() <= 255 ==> (r matches Ok(u) && final(out)@ == old(out)@ + enc_csharp(s@)),
        s@.len() > 255 ==> (r matches Err(e) && e == CodecError::StringTooLong && final(out)@
            == old(out)@),
{
    let n = s.byte_len();
    if n > 255 {
        return Err(CodecError::StringTooLong);
    }
    out.push(n as u8);
    out.extend_from_slice(s.as_bytes());
    assert(out@ =~= old(out)@ + enc_csharp(s@));
    Ok(())
}

/// Decoding reads back exactly what encoding wrote, leaving anything that
/// follows untouched.
pub proof fn lemma_csharp_enc_dec(b: Seq<u8>, pos: int, sb: Seq<u8>)
    requires
        0 <= pos,
        sb.len() <= 255,
        is_utf8(sb),
        pos + 1 + sb.len() <= b.len(),
        b.subrange(pos, pos + 1 + sb.len()) == enc_csharp(sb),
    ensures
        dec_csharp(b, pos) == Ok::<_, CodecError>((sb, pos + 1 + sb.len())),
{
    let w = 1 + sb.len();
    assert(b[pos] == enc_csharp(sb)[0]);
    assert(b[pos] == sb.len() as u8);
    let n = b[pos] as int;
    assert(n == sb.len());
    assert(b.subrange(pos + 1, pos + 1 + n) =~= sb) by {
        assert forall|k: int| 0 <= k < n implies b[pos + 1 + k] == sb[k] by {
            assert(b[pos + 1 + k] == b.subrange(pos, pos + w)[1 + k]);
            assert(enc_csharp(sb)[1 + k] == sb[k]);
        }
    }
}

/// A successfully decoded string re-encodes to the very bytes it was read
/// from: this codec is canonical.
pub proof fn lemma_csharp_dec_enc(b: Seq<u8>, pos: int, sb: Seq<u8>, n: int)
    requires
        0 <= pos,
        dec_csharp(b, pos) == Ok::<_, CodecError>((sb, n)),
    ensures
        sb.len() <= 255,
        is_utf8(sb),
        n == pos + 1 + sb.len(),
        enc_csharp(sb) == b.subrange(pos, n),
{
    assert(sb == b.subrange(pos + 1, pos + 1 + b[pos] as int));
    assert(enc_csharp(sb) =~= b.subrange(pos, n));
}

/// Cutting the input anywhere inside an encoded string makes decoding fail
/// with `TruncatedInput`.
pub proof fn lemma_csharp_truncated(b: Seq<u8>, pos: int, sb: Seq<u8>)
    requires
        0 <= pos <= b.len(),
        sb.len() <= 255,
        b.len() - pos < 1 + sb.len(),
        b.subrange(pos, b.len() as int) == enc_csharp(sb).subrange(0, b.len() - pos),
    ensures
        dec_csharp(b, pos) == Err::<(Seq<u8>, int), _>(CodecError::TruncatedInput),
{
    let avail = b.len() - pos;
    if avail > 0 {
        assert(b[pos] == b.subrange(pos, b.len() as int)[0]);
        assert(b[pos] == enc_csharp(sb)[0]);
        assert(b[pos] as int == sb.len());
    }
}

} // verus!
