//! The traits of the codec, and the model of the wire format that their
//! contracts speak of.
//!
//! A type's wire format is two specification functions: what a value encodes
//! to ([`WireEncoding`]), and what decoding the front of a byte string gives
//! ([`WireDecoding`]). Every executable method is held to them. Writers are
//! growing byte vectors; readers are byte slices that the reading advances.
use vstd::prelude::*;
use crate::error::{Error, ErrorView};

verus! {

/// What the values of a type encode to.
pub trait WireEncoding {
    /// The bytes that encode `self`.
    spec fn tls_encoding(&self) -> Seq<u8>;

    /// Why `self` cannot be encoded; `None` where it can.
    spec fn tls_encoding_error(&self) -> Option<ErrorView>;

    /// The bytes that encoding `self` writes before it fails, where it fails.
    spec fn tls_written_on_error(&self) -> Seq<u8>;
}

/// A reference encodes as the value it refers to.
impl<'a, T: WireEncoding> WireEncoding for &'a T {
    open spec fn tls_encoding(&self) -> Seq<u8> {
        (**self).tls_encoding()
    }

    open spec fn tls_encoding_error(&self) -> Option<ErrorView> {
        (**self).tls_encoding_error()
    }

    open spec fn tls_written_on_error(&self) -> Seq<u8> {
        (**self).tls_written_on_error()
    }
}

/// What decoding the front of a byte string gives, and the two facts that
/// make it the inverse of the encoding.
pub trait WireDecoding: WireEncoding + Sized {
    /// The value at the front of `bytes` and the number of bytes it takes, or
    /// why there is none.
    spec fn tls_decoding(bytes: Seq<u8>) -> Result<(Self, nat), ErrorView>;

    /// The number of bytes that a reader has taken from the front of `bytes`
    /// when decoding from it fails.
    spec fn tls_consumed_on_error(bytes: Seq<u8>) -> nat;

    /// Decoding the encoding of a value, whatever follows it, gives the value
    /// back and takes exactly its encoding.
    proof fn lemma_decoding_of_encoding(v: Self, rest: Seq<u8>)
        requires
            v.tls_encoding_error() is None,
        ensures
            Self::tls_decoding(v.tls_encoding() + rest) == Ok::<(Self, nat), ErrorView>(
                (v, v.tls_encoding().len()),
            ),
    ;

    /// What decoding takes from the front of the input is exactly the encoding
    /// of the value it gives, and that value can be encoded.
    proof fn lemma_encoding_of_decoding(bytes: Seq<u8>)
        ensures
            Self::tls_decoding(bytes) matches Ok((v, n)) ==> {
                &&& n <= bytes.len()
                &&& v.tls_encoding_error() is None
                &&& bytes.take(n as int) == v.tls_encoding()
            },
    ;
}

/// `n` as a `usize` where it fits, else `None`.
pub open spec fn checked_len(n: nat) -> Option<usize> {
    if n <= usize::MAX {
        Some(n as usize)
    } else {
        None
    }
}

/// `after` is `before` followed by the first bytes of `encoding`: what a
/// writer holds when an encoding stopped part way.
pub open spec fn extended_by_prefix(before: Seq<u8>, after: Seq<u8>, encoding: Seq<u8>) -> bool {
    &&& before.len() <= after.len() <= before.len() + encoding.len()
    &&& after == before + encoding.take(after.len() - before.len())
}

/// `rest` is what is left of `input` after some bytes were taken from its front.
pub open spec fn is_suffix_of(rest: Seq<u8>, input: Seq<u8>) -> bool {
    &&& rest.len() <= input.len()
    &&& rest == input.skip(input.len() - rest.len())
}

/// A suffix of a suffix is a suffix.
pub proof fn lemma_suffix_of_suffix(rest: Seq<u8>, middle: Seq<u8>, input: Seq<u8>)
    requires
        is_suffix_of(rest, middle),
        is_suffix_of(middle, input),
    ensures
        is_suffix_of(rest, input),
{
    assert(rest =~= input.skip(input.len() - rest.len()));
}

/// The length of a value's encoding.
pub trait Size: WireEncoding {
    /// The number of bytes that encode `self`.
    fn tls_serialized_len(&self) -> (len: usize)
        requires
            self.tls_encoding().len() <= usize::MAX,
        ensures
            len == self.tls_encoding().len(),
    ;
}

/// The length of a value's encoding, or `None` where it does not fit a `usize`.
pub trait SizeChecked: WireEncoding {
    /// The number of bytes that encode `self`, where that fits a `usize`.
    fn tls_serialized_len_checked(&self) -> (len: Option<usize>)
        ensures
            len == checked_len(self.tls_encoding().len()),
    ;
}

/// Encoding onto the end of a writer.
pub trait Serialize: Size {
    /// Appends the encoding of `self` to `writer` and returns its length.
    /// On an error the writer holds what was written before it: the bytes
    /// of `tls_written_on_error`, which are the first bytes of the encoding.
    fn tls_serialize(&self, writer: &mut Vec<u8>) -> (r: Result<usize, Error>)
        requires
            self.tls_encoding().len() <= usize::MAX,
        ensures
            match r {
                Ok(n) => {
                    &&& self.tls_encoding_error() is None
                    &&& n == self.tls_encoding().len()
                    &&& final(writer)@ == old(writer)@ + self.tls_encoding()
                },
                Err(e) => {
                    &&& self.tls_encoding_error() == Some(e@)
                    &&& final(writer)@ == old(writer)@ + self.tls_written_on_error()
                    &&& extended_by_prefix(old(writer)@, final(writer)@, self.tls_encoding())
                },
            },
    ;
}

/// Encoding into a new byte vector.
pub trait SerializeBytes: Size {
    /// The encoding of `self`.
    fn tls_serialize(&self) -> (r: Result<Vec<u8>, Error>)
        requires
            self.tls_encoding().len() <= usize::MAX,
        ensures
            match r {
                Ok(bytes) => self.tls_encoding_error() is None && bytes@ == self.tls_encoding(),
                Err(e) => self.tls_encoding_error() == Some(e@),
            },
    ;
}

/// Decoding from a reader, which the reading advances.
pub trait Deserialize: Size + WireDecoding {
    /// Decodes a value from the front of `bytes` and moves `bytes` past it.
    /// On an error the reader has moved past `tls_consumed_on_error` bytes.
    /// The reader only ever moves forward.
    fn tls_deserialize(bytes: &mut &[u8]) -> (r: Result<Self, Error>)
        ensures
            match Self::tls_decoding(old(bytes)@) {
                Ok((v, n)) => r == Ok::<Self, Error>(v) && final(bytes)@ == old(bytes)@.skip(
                    n as int,
                ),
                Err(e) => {
                    &&& r matches Err(x) && x@ == e
                    &&& Self::tls_consumed_on_error(old(bytes)@) <= old(bytes)@.len()
                    &&& final(bytes)@ == old(bytes)@.skip(
                        Self::tls_consumed_on_error(old(bytes)@) as int,
                    )
                },
            },
            is_suffix_of(final(bytes)@, old(bytes)@),
    ;
}

/// Decoding from a byte slice, handing back what follows the value.
pub trait DeserializeBytes: Size + WireDecoding {
    /// Decodes a value from the front of `bytes`; returns it with the rest of
    /// `bytes`.
    fn tls_deserialize_bytes(bytes: &[u8]) -> (r: Result<(Self, &[u8]), Error>)
        ensures
            match Self::tls_decoding(bytes@) {
                Ok((v, n)) => r matches Ok((x, rest)) && x == v && rest@ == bytes@.skip(n as int),
                Err(e) => r matches Err(x) && x@ == e,
            },
    ;
}

/// Takes `n` bytes from the front of `reader`. Where fewer are left, the
/// reader is used up and the answer is `EndOfStream`, as `read_exact` on a
/// byte slice does.
pub(crate) fn read_exact<'a>(reader: &mut &'a [u8], n: usize) -> (r: Result<&'a [u8], Error>)
    ensures
        n <= old(reader)@.len() ==> (r matches Ok(taken) && taken@ == old(reader)@.take(n as int)
            && final(reader)@ == old(reader)@.skip(n as int)),
        n > old(reader)@.len() ==> r == Err::<&'a [u8], Error>(Error::EndOfStream)
            && final(reader)@ == Seq::<u8>::empty() && final(reader)@ == old(reader)@.skip(
            old(reader)@.len() as int,
        ),
        is_suffix_of(final(reader)@, old(reader)@),
{
    let input: &'a [u8] = *reader;
    if n <= input.len() {
        let (taken, rest) = input.split_at(n);
        *reader = rest;
        Ok(taken)
    } else {
        let (_, rest) = input.split_at(input.len());
        *reader = rest;
        assert(rest@ =~= input@.skip(input@.len() as int));
        Err(Error::EndOfStream)
    }
}

} // verus!
