//! Optional values: a presence byte, 0 for `None` and 1 for `Some`, then the
//! value where there is one.
use vstd::prelude::*;
use crate::codec::{
    extended_by_prefix, is_suffix_of, lemma_suffix_of_suffix, read_exact, Deserialize, DeserializeBytes, Serialize, SerializeBytes,
    Size, SizeChecked, WireDecoding, WireEncoding,
};
use crate::error::{option_tag_error, option_tag_text, Error, ErrorView};
use crate::uint::lemma_u8_decoding;

verus! {

impl<T: WireEncoding> WireEncoding for Option<T> {
    open spec fn tls_encoding(&self) -> Seq<u8> {
        match self {
            Some(v) => seq![1u8] + v.tls_encoding(),
            None => seq![0u8],
        }
    }

    open spec fn tls_encoding_error(&self) -> Option<ErrorView> {
        match self {
            Some(v) => v.tls_encoding_error(),
            None => None,
        }
    }

    /// The presence byte stays written when the value after it fails.
    open spec fn tls_written_on_error(&self) -> Seq<u8> {
        match self {
            Some(v) => seq![1u8] + v.tls_written_on_error(),
            None => Seq::empty(),
        }
    }
}

impl<T: WireDecoding> WireDecoding for Option<T> {
    open spec fn tls_decoding(bytes: Seq<u8>) -> Result<(Option<T>, nat), ErrorView> {
        if bytes.len() == 0 {
            Err(ErrorView::EndOfStream)
        } else if bytes[0] == 0 {
            Ok((None, 1))
        } else if bytes[0] == 1 {
            match T::tls_decoding(bytes.skip(1)) {
                Ok((v, n)) => Ok((Some(v), n + 1)),
                Err(e) => Err(e),
            }
        } else {
            Err(ErrorView::DecodingError(option_tag_text(bytes[0])))
        }
    }

    /// An empty input is used up; a bad presence byte is taken alone; after
    /// a presence byte 1 the reader stops where the value's decoding stopped.
    open spec fn tls_consumed_on_error(bytes: Seq<u8>) -> nat {
        if bytes.len() == 0 {
            0
        } else if bytes[0] == 1 {
            1 + T::tls_consumed_on_error(bytes.skip(1))
        } else {
            1
        }
    }

    proof fn lemma_decoding_of_encoding(v: Option<T>, rest: Seq<u8>) {
        match v {
            Some(x) => {
                let bytes = v.tls_encoding() + rest;
                assert(bytes.skip(1) =~= x.tls_encoding() + rest);
                T::lemma_decoding_of_encoding(x, rest);
            },
            None => {},
        }
    }

    proof fn lemma_encoding_of_decoding(bytes: Seq<u8>) {
        if bytes.len() > 0 && bytes[0] == 0 {
            assert(bytes.take(1) =~= seq![0u8]);
        } else if bytes.len() > 0 && bytes[0] == 1 {
            T::lemma_encoding_of_decoding(bytes.skip(1));
            if let Ok((x, n)) = T::tls_decoding(bytes.skip(1)) {
                assert(bytes.take(n + 1 as int) =~= seq![1u8] + bytes.skip(1).take(n as int));
            }
        }
    }
}

impl<T: Size> Size for Option<T> {
    fn tls_serialized_len(&self) -> (len: usize) {
        1 + match self {
            Some(v) => v.tls_serialized_len(),
            None => 0,
        }
    }
}

impl<T: SizeChecked> SizeChecked for Option<T> {
    fn tls_serialized_len_checked(&self) -> (len: Option<usize>) {
        1usize.checked_add(
            match self {
                Some(v) => v.tls_serialized_len_checked()?,
                None => 0,
            },
        )
    }
}

impl<'a, T: Size> Size for &'a Option<T> {
    fn tls_serialized_len(&self) -> (len: usize) {
        (**self).tls_serialized_len()
    }
}

impl<'a, T: SizeChecked> SizeChecked for &'a Option<T> {
    fn tls_serialized_len_checked(&self) -> (len: Option<usize>) {
        (**self).tls_serialized_len_checked()
    }
}

impl<T: Serialize> Serialize for Option<T> {
    fn tls_serialize(&self, writer: &mut Vec<u8>) -> (r: Result<usize, Error>) {
        match self {
            Some(e) => {
                writer.push(1);
                let ghost marked = writer@;
                let written = match e.tls_serialize(writer) {
                    Ok(n) => n,
                    Err(err) => {
                        proof {
                            let k = writer@.len() - marked.len();
                            assert(writer@ =~= old(writer)@ + self.tls_encoding().take(k + 1));
                        }
                        return Err(err);
                    },
                };
                assert(writer@ =~= old(writer)@ + self.tls_encoding());
                match written.checked_add(1) {
                    Some(total) => Ok(total),
                    None => Err(Error::LibraryError),
                }
            },
            None => {
                writer.push(0);
                assert(writer@ =~= old(writer)@ + self.tls_encoding());
                Ok(1)
            },
        }
    }
}

impl<'a, T: Serialize> Serialize for &'a Option<T> {
    fn tls_serialize(&self, writer: &mut Vec<u8>) -> (r: Result<usize, Error>) {
        <Option<T> as Serialize>::tls_serialize(*self, writer)
    }
}

impl<T: SerializeBytes> SerializeBytes for Option<T> {
    fn tls_serialize(&self) -> (r: Result<Vec<u8>, Error>) {
        match self {
            Some(e) => {
                let capacity = match e.tls_serialized_len().checked_add(1) {
                    Some(c) => c,
                    None => return Err(Error::LibraryError),
                };
                let mut out: Vec<u8> = Vec::with_capacity(capacity);
                out.push(1);
                let mut serialized_e = e.tls_serialize()?;
                out.append(&mut serialized_e);
                assert(out@ =~= self.tls_encoding());
                Ok(out)
            },
            None => {
                let out: Vec<u8> = vec![0];
                assert(out@ =~= self.tls_encoding());
                Ok(out)
            },
        }
    }
}

impl<'a, T: SerializeBytes> SerializeBytes for &'a Option<T> {
    fn tls_serialize(&self) -> (r: Result<Vec<u8>, Error>) {
        <Option<T> as SerializeBytes>::tls_serialize(*self)
    }
}

impl<T: Deserialize> Deserialize for Option<T> {
    fn tls_deserialize(bytes: &mut &[u8]) -> (r: Result<Self, Error>) {
        let ghost input = old(bytes)@;
        let some_or_none = read_exact(bytes, 1)?;
        let tag = some_or_none[0];
        assert(is_suffix_of(bytes@, input));
        match tag {
            0 => Ok(None),
            1 => {
                let ghost middle = bytes@;
                let result = T::tls_deserialize(bytes);
                proof {
                    lemma_suffix_of_suffix(bytes@, middle, input);
                }
                match result {
                    Ok(element) => {
                        proof {
                            T::lemma_encoding_of_decoding(middle);
                            if let Ok((v, n)) = T::tls_decoding(middle) {
                                assert(bytes@ =~= input.skip(n + 1 as int));
                            }
                        }
                        Ok(Some(element))
                    },
                    Err(e) => Err(e),
                }
            },
            _ => Err(option_tag_error(tag)),
        }
    }
}

impl<T: DeserializeBytes> DeserializeBytes for Option<T> {
    fn tls_deserialize_bytes(bytes: &[u8]) -> (r: Result<(Self, &[u8]), Error>) {
        proof {
            lemma_u8_decoding(bytes@);
        }
        let (some_or_none, remainder) = <u8 as DeserializeBytes>::tls_deserialize_bytes(bytes)?;
        match some_or_none {
            0 => Ok((None, remainder)),
            1 => {
                let ghost middle = remainder@;
                let (element, remainder) = T::tls_deserialize_bytes(remainder)?;
                proof {
                    T::lemma_encoding_of_decoding(middle);
                    if let Ok((v, n)) = T::tls_decoding(middle) {
                        assert(remainder@ =~= bytes@.skip(n + 1 as int));
                    }
                }
                Ok((Some(element), remainder))
            },
            _ => Err(option_tag_error(some_or_none)),
        }
    }
}

} // verus!
