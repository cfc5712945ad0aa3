//! Boxed values encode as the value in the box.
use vstd::prelude::*;
use crate::codec::{
    Deserialize, DeserializeBytes, Serialize, SerializeBytes, Size, SizeChecked, WireDecoding,
    WireEncoding,
};
use crate::error::{Error, ErrorView};

verus! {

impl<T: WireEncoding> WireEncoding for Box<T> {
    open spec fn tls_encoding(&self) -> Seq<u8> {
        (**self).tls_encoding()
    }

    open spec fn tls_encoding_error(&self) -> Option<ErrorView> {
        (**self).tls_encoding_error()
    }

    open spec fn tls_written_on_error(&self) -> Seq<u8> {
        (**self).tls_written_on_error()
    }
}

impl<T: WireDecoding> WireDecoding for Box<T> {
    open spec fn tls_decoding(bytes: Seq<u8>) -> Result<(Box<T>, nat), ErrorView> {
        match T::tls_decoding(bytes) {
            Ok((v, n)) => Ok((Box::new(v), n)),
            Err(e) => Err(e),
        }
    }

    open spec fn tls_consumed_on_error(bytes: Seq<u8>) -> nat {
        T::tls_consumed_on_error(bytes)
    }

    proof fn lemma_decoding_of_encoding(v: Box<T>, rest: Seq<u8>) {
        T::lemma_decoding_of_encoding(*v, rest);
    }

    proof fn lemma_encoding_of_decoding(bytes: Seq<u8>) {
        T::lemma_encoding_of_decoding(bytes);
    }
}

impl<T: Size> Size for Box<T> {
    fn tls_serialized_len(&self) -> (len: usize) {
        (**self).tls_serialized_len()
    }
}

impl<T: SizeChecked> SizeChecked for Box<T> {
    fn tls_serialized_len_checked(&self) -> (len: Option<usize>) {
        (**self).tls_serialized_len_checked()
    }
}

impl<T: Serialize> Serialize for Box<T> {
    fn tls_serialize(&self, writer: &mut Vec<u8>) -> (r: Result<usize, Error>) {
        (**self).tls_serialize(writer)
    }
}

impl<T: SerializeBytes> SerializeBytes for Box<T> {
    fn tls_serialize(&self) -> (r: Result<Vec<u8>, Error>) {
        (**self).tls_serialize()
    }
}

impl<T: Deserialize> Deserialize for Box<T> {
    fn tls_deserialize(bytes: &mut &[u8]) -> (r: Result<Self, Error>) {
        match T::tls_deserialize(bytes) {
            Ok(v) => Ok(Box::new(v)),
            Err(e) => Err(e),
        }
    }
}

impl<T: DeserializeBytes> DeserializeBytes for Box<T> {
    fn tls_deserialize_bytes(bytes: &[u8]) -> (r: Result<(Self, &[u8]), Error>) {
        match T::tls_deserialize_bytes(bytes) {
            Ok((v, rest)) => Ok((Box::new(v), rest)),
            Err(e) => Err(e),
        }
    }
}

} // verus!
