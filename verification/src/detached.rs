//! Encoding into a fresh byte vector, and decoding a value that must take
//! all of its input.
use vstd::prelude::*;
use crate::codec::{Deserialize, Serialize, WireDecoding, WireEncoding};
use crate::error::{Error, ErrorView};

verus! {

/// Decoding a value that must take all of `bytes`: `TrailingData` where
/// bytes are left over.
pub open spec fn tls_exact_decoding<T: WireDecoding>(bytes: Seq<u8>) -> Result<T, ErrorView> {
    match T::tls_decoding(bytes) {
        Ok((v, n)) => if n == bytes.len() {
            Ok(v)
        } else {
            Err(ErrorView::TrailingData)
        },
        Err(e) => Err(e),
    }
}

/// Encodes `v` into a new vector, through its writer encoding.
pub fn tls_serialize_detached_default<T: Serialize>(v: &T) -> (r: Result<Vec<u8>, Error>)
    requires
        v.tls_encoding().len() <= usize::MAX,
    ensures
        match r {
            Ok(bytes) => v.tls_encoding_error() is None && bytes@ == v.tls_encoding(),
            Err(e) => v.tls_encoding_error() == Some(e@),
        },
{
    let mut buffer: Vec<u8> = Vec::with_capacity(v.tls_serialized_len());
    let written = v.tls_serialize(&mut buffer)?;
    assert(buffer@ =~= v.tls_encoding());
    assert(written == buffer.len());
    Ok(buffer)
}

/// Decodes a value from `bytes`, which it must take all of.
pub fn tls_deserialize_exact_default<T: Deserialize>(bytes: &[u8]) -> (r: Result<T, Error>)
    ensures
        match tls_exact_decoding::<T>(bytes@) {
            Ok(v) => r == Ok::<T, Error>(v),
            Err(e) => r matches Err(x) && x@ == e,
        },
{
    let mut reader: &[u8] = bytes;
    proof {
        T::lemma_encoding_of_decoding(bytes@);
    }
    let out = T::tls_deserialize(&mut reader)?;
    if !reader.is_empty() {
        return Err(Error::TrailingData);
    }
    Ok(out)
}

/// Encoding into a new byte vector.
pub trait SerializeDetached: WireEncoding {
    /// Serialize `self` and return it as a byte vector.
    fn tls_serialize_detached(&self) -> (r: Result<Vec<u8>, Error>)
        requires
            self.tls_encoding().len() <= usize::MAX,
        ensures
            match r {
                Ok(bytes) => self.tls_encoding_error() is None && bytes@ == self.tls_encoding(),
                Err(e) => self.tls_encoding_error() == Some(e@),
            },
    ;
}

impl<T: Serialize> SerializeDetached for T {
    /// Serialize `self` and return it as a byte vector.
    fn tls_serialize_detached(&self) -> (r: Result<Vec<u8>, Error>) {
        tls_serialize_detached_default(self)
    }
}

/// Decoding a value that takes all of its input.
pub trait DeserializeExact: Deserialize {
    /// This function deserializes the provided `bytes` and returns the populated
    /// struct. All bytes must be consumed.
    ///
    /// Returns an error if not all bytes are read from the input, or if an error
    /// occurs during deserialization.
    fn tls_deserialize_exact(bytes: &[u8]) -> (r: Result<Self, Error>)
        ensures
            match tls_exact_decoding::<Self>(bytes@) {
                Ok(v) => r == Ok::<Self, Error>(v),
                Err(e) => r matches Err(x) && x@ == e,
            },
    ;
}

impl<T: Deserialize> DeserializeExact for T {
    /// This function deserializes the provided `bytes` and returns the populated
    /// struct. All bytes must be consumed.
    ///
    /// Returns an error if not all bytes are read from the input, or if an error
    /// occurs during deserialization.
    fn tls_deserialize_exact(bytes: &[u8]) -> (r: Result<Self, Error>) {
        tls_deserialize_exact_default(bytes)
    }
}

} // verus!
