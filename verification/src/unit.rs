//! Values that take no bytes: `()` and `PhantomData`.
use vstd::prelude::*;
use core::marker::PhantomData;
use crate::codec::{
    Deserialize, DeserializeBytes, Serialize, SerializeBytes, Size, SizeChecked, WireDecoding,
    WireEncoding,
};
use crate::error::{Error, ErrorView};

verus! {

// ---------------------------------------------------------------- ()

impl WireEncoding for () {
    open spec fn tls_encoding(&self) -> Seq<u8> {
        Seq::empty()
    }

    open spec fn tls_encoding_error(&self) -> Option<ErrorView> {
        None
    }

    open spec fn tls_written_on_error(&self) -> Seq<u8> {
        Seq::empty()
    }
}

impl WireDecoding for () {
    open spec fn tls_decoding(bytes: Seq<u8>) -> Result<((), nat), ErrorView> {
        Ok(((), 0))
    }

    /// Decoding never fails, and takes nothing.
    open spec fn tls_consumed_on_error(bytes: Seq<u8>) -> nat {
        0
    }

    proof fn lemma_decoding_of_encoding(v: (), rest: Seq<u8>) {
    }

    proof fn lemma_encoding_of_decoding(bytes: Seq<u8>) {
        assert(bytes.take(0) =~= Seq::<u8>::empty());
    }
}

impl Size for () {
    fn tls_serialized_len(&self) -> (len: usize) {
        0
    }
}

impl SizeChecked for () {
    fn tls_serialized_len_checked(&self) -> (len: Option<usize>) {
        Some(0)
    }
}

impl Deserialize for () {
    fn tls_deserialize(bytes: &mut &[u8]) -> (r: Result<(), Error>) {
        assert(bytes@ =~= bytes@.skip(0));
        Ok(())
    }
}

impl DeserializeBytes for () {
    fn tls_deserialize_bytes(bytes: &[u8]) -> (r: Result<((), &[u8]), Error>) {
        assert(bytes@ =~= bytes@.skip(0));
        Ok(((), bytes))
    }
}

impl Serialize for () {
    fn tls_serialize(&self, writer: &mut Vec<u8>) -> (r: Result<usize, Error>) {
        assert(writer@ =~= writer@ + self.tls_encoding());
        Ok(0)
    }
}

// ---------------------------------------------------------------- PhantomData

impl<T> WireEncoding for PhantomData<T> {
    open spec fn tls_encoding(&self) -> Seq<u8> {
        Seq::empty()
    }

    open spec fn tls_encoding_error(&self) -> Option<ErrorView> {
        None
    }

    open spec fn tls_written_on_error(&self) -> Seq<u8> {
        Seq::empty()
    }
}

impl<T> WireDecoding for PhantomData<T> {
    open spec fn tls_decoding(bytes: Seq<u8>) -> Result<(PhantomData<T>, nat), ErrorView> {
        Ok((PhantomData, 0))
    }

    /// Decoding never fails, and takes nothing.
    open spec fn tls_consumed_on_error(bytes: Seq<u8>) -> nat {
        0
    }

    proof fn lemma_decoding_of_encoding(v: PhantomData<T>, rest: Seq<u8>) {
    }

    proof fn lemma_encoding_of_decoding(bytes: Seq<u8>) {
        assert(bytes.take(0) =~= Seq::<u8>::empty());
    }
}

impl<T> Size for PhantomData<T> {
    fn tls_serialized_len(&self) -> (len: usize) {
        0
    }
}

impl<T> SizeChecked for PhantomData<T> {
    fn tls_serialized_len_checked(&self) -> (len: Option<usize>) {
        Some(0)
    }
}

impl<T> Deserialize for PhantomData<T> {
    fn tls_deserialize(bytes: &mut &[u8]) -> (r: Result<Self, Error>) {
        assert(bytes@ =~= bytes@.skip(0));
        Ok(PhantomData)
    }
}

impl<T> DeserializeBytes for PhantomData<T> {
    fn tls_deserialize_bytes(bytes: &[u8]) -> (r: Result<(Self, &[u8]), Error>) {
        assert(bytes@ =~= bytes@.skip(0));
        Ok((PhantomData, bytes))
    }
}

impl<T> Serialize for PhantomData<T> {
    fn tls_serialize(&self, writer: &mut Vec<u8>) -> (r: Result<usize, Error>) {
        assert(writer@ =~= writer@ + self.tls_encoding());
        Ok(0)
    }
}

impl<T> SerializeBytes for PhantomData<T> {
    fn tls_serialize(&self) -> (r: Result<Vec<u8>, Error>) {
        let out: Vec<u8> = Vec::new();
        assert(out@ =~= self.tls_encoding());
        Ok(out)
    }
}

} // verus!
