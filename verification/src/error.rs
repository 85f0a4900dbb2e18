use vstd::prelude::*;

verus! {

/// Typed failures of the codec.
///
/// `TruncatedInput`: the input ended before a fixed-width field or a
/// declared string length could be satisfied; fatal to a decode.
/// `InvalidEncoding`: the nickname bytes are not valid UTF-8; fatal to a
/// decode. `StringTooLong`: the nickname exceeds 255 UTF-8 bytes; fatal to
/// an encode, so that no corrupted file is ever produced.
#[derive(Clone, Copy, Debug, PartialEq, Eq, Structural)]
pub enum CodecError {
    TruncatedInput,
    InvalidEncoding,
    StringTooLong,
}

} // verus!
