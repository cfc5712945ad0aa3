//! What holds of every type with a wire format: decoding undoes encoding,
//! and every decodable input is the one encoding of what it decodes to.
use vstd::prelude::*;
use crate::codec::{WireDecoding, WireEncoding};
use crate::detached::tls_exact_decoding;
use crate::error::ErrorView;

verus! {

/// Decoding exactly the encoding of a value that can be encoded gives the
/// value back: what `tls_deserialize_exact` makes of the output of
/// `tls_serialize_detached`.
pub proof fn lemma_exact_decoding_of_encoding<T: WireDecoding>(v: T)
    requires
        v.tls_encoding_error() is None,
    ensures
        tls_exact_decoding::<T>(v.tls_encoding()) == Ok::<T, ErrorView>(v),
{
    T::lemma_decoding_of_encoding(v, Seq::empty());
    assert(v.tls_encoding() + Seq::<u8>::empty() =~= v.tls_encoding());
}

/// An input that decodes exactly to a value is that value's encoding, so
/// encoding a decoded value gives back the very bytes it came from.
pub proof fn lemma_encoding_of_exact_decoding<T: WireDecoding>(bytes: Seq<u8>)
    ensures
        tls_exact_decoding::<T>(bytes) matches Ok(v) ==> {
            &&& v.tls_encoding_error() is None
            &&& v.tls_encoding() == bytes
        },
{
    T::lemma_encoding_of_decoding(bytes);
    assert(bytes.take(bytes.len() as int) =~= bytes);
}

/// Two values that can be encoded and have the same encoding are the same value.
pub proof fn lemma_encoding_injective<T: WireDecoding>(a: T, b: T)
    requires
        a.tls_encoding_error() is None,
        b.tls_encoding_error() is None,
        a.tls_encoding() == b.tls_encoding(),
    ensures
        a == b,
{
    lemma_exact_decoding_of_encoding(a);
    lemma_exact_decoding_of_encoding(b);
}

/// Where the front of an input decodes, whatever is appended to the input
/// does not change what decoding gives.
pub proof fn lemma_decoding_ignores_what_follows<T: WireDecoding>(bytes: Seq<u8>, extra: Seq<u8>)
    ensures
        T::tls_decoding(bytes) is Ok ==> T::tls_decoding(bytes + extra) == T::tls_decoding(bytes),
{
    T::lemma_encoding_of_decoding(bytes);
    if let Ok((v, n)) = T::tls_decoding(bytes) {
        let rest = bytes.skip(n as int) + extra;
        assert(bytes + extra =~= v.tls_encoding() + rest);
        T::lemma_decoding_of_encoding(v, rest);
        T::lemma_decoding_of_encoding(v, bytes.skip(n as int));
        assert(bytes =~= v.tls_encoding() + bytes.skip(n as int));
    }
}

/// Decoding with trailing bytes left over fails with `TrailingData`, and
/// succeeds on exactly the decoded prefix.
pub proof fn lemma_exact_decoding_of_prefix<T: WireDecoding>(bytes: Seq<u8>)
    ensures
        T::tls_decoding(bytes) matches Ok((v, n)) ==> {
            &&& tls_exact_decoding::<T>(bytes.take(n as int)) == Ok::<T, ErrorView>(v)
            &&& n < bytes.len() ==> tls_exact_decoding::<T>(bytes) == Err::<T, ErrorView>(
                ErrorView::TrailingData,
            )
        },
{
    T::lemma_encoding_of_decoding(bytes);
    if let Ok((v, n)) = T::tls_decoding(bytes) {
        lemma_exact_decoding_of_encoding(v);
    }
}

} // verus!
