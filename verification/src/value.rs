use vstd::prelude::*;
use vstd::bytes::spec_u64_to_le_bytes;
use vstd::bytes::spec_u64_from_le_bytes;
use vstd::bytes::lemma_auto_spec_u64_to_from_le_bytes;

verus! {

/// What the cache can store: anything with a deterministic byte encoding that
/// decodes back to the value it came from.
pub trait Value: Sized {
    /// The bytes that stand for this value in a page.
    spec fn encoding(&self) -> Seq<u8>;

    /// The value that a byte sequence stands for, if it stands for one.
    spec fn decoding(bytes: Seq<u8>) -> Option<Self>;

    /// Decoding undoes encoding.
    proof fn round_trip(&self)
        ensures
            Self::decoding(self.encoding()) == Some(*self),
    ;

    /// Encodes the value.
    fn serialize(&self) -> (bytes: Vec<u8>)
        ensures
            bytes@ == self.encoding(),
    ;

    /// Decodes a value, or reports that the bytes hold none.
    fn deserialize(bytes: &[u8]) -> (value: Option<Self>)
        ensures
            value == Self::decoding(bytes@),
    ;
}

/// Calls `bincode::serialize` on a `u64`.
///
/// Trusted: with bincode's fixed-width integer encoding, little-endian byte
/// order and no size limit, the call succeeds on every `u64` and yields its
/// eight bytes, least significant first.
#[verifier::external_body]
fn bincode_serialize_u64(value: u64) -> (bytes: Option<Vec<u8>>)
    ensures
        bytes is Some,
        bytes.unwrap()@ == spec_u64_to_le_bytes(value),
{
    bincode::serialize(&value).ok()
}

/// Calls `bincode::deserialize` for a `u64`.
///
/// Trusted: the call reads the first eight bytes as a little-endian integer
/// and ignores what follows them; it fails exactly when fewer than eight bytes
/// are given.
#[verifier::external_body]
fn bincode_deserialize_u64(bytes: &[u8]) -> (value: Option<u64>)
    ensures
        value == if bytes@.len() >= 8 {
            Some(spec_u64_from_le_bytes(bytes@.subrange(0, 8)))
        } else {
            None
        },
{
    bincode::deserialize::<u64>(bytes).ok()
}

impl Value for u64 {
    open spec fn encoding(&self) -> Seq<u8> {
        spec_u64_to_le_bytes(*self)
    }

    open spec fn decoding(bytes: Seq<u8>) -> Option<u64> {
        if bytes.len() >= 8 {
            Some(spec_u64_from_le_bytes(bytes.subrange(0, 8)))
        } else {
            None
        }
    }

    proof fn round_trip(&self) {
        lemma_auto_spec_u64_to_from_le_bytes();
        let bytes = spec_u64_to_le_bytes(*self);
        assert(bytes.subrange(0, 8) =~= bytes);
    }

    fn serialize(&self) -> (bytes: Vec<u8>) {
        match bincode_serialize_u64(*self) {
            Some(encoded) => encoded,
            None => Vec::new(),
        }
    }

    fn deserialize(bytes: &[u8]) -> (value: Option<u64>) {
        bincode_deserialize_u64(bytes)
    }
}

} // verus!
