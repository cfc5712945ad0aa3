//! Pairs and triples: their components' encodings one after the other.
use vstd::prelude::*;
use crate::codec::{
    extended_by_prefix, is_suffix_of, lemma_suffix_of_suffix, Deserialize, DeserializeBytes,
    Serialize, Size, SizeChecked, WireDecoding, WireEncoding,
};
use crate::error::{Error, ErrorView};

verus! {

/// The first error of two, in order.
pub open spec fn first_error(a: Option<ErrorView>, b: Option<ErrorView>) -> Option<ErrorView> {
    if a is Some {
        a
    } else {
        b
    }
}

/// A writer that holds `before` and then a prefix of `x`, or all of `x` and
/// then a prefix of `y`, holds `before` and a prefix of `x + y`.
proof fn lemma_prefix_of_concat(
    before: Seq<u8>,
    middle: Seq<u8>,
    after: Seq<u8>,
    x: Seq<u8>,
    y: Seq<u8>,
)
    requires
        middle == before + x,
        extended_by_prefix(middle, after, y),
    ensures
        extended_by_prefix(before, after, x + y),
{
    assert(after =~= before + (x + y).take(after.len() - before.len()));
}

/// A prefix of `x` is a prefix of `x + y`.
proof fn lemma_prefix_of_front(before: Seq<u8>, after: Seq<u8>, x: Seq<u8>, y: Seq<u8>)
    requires
        extended_by_prefix(before, after, x),
    ensures
        extended_by_prefix(before, after, x + y),
{
    assert(after =~= before + (x + y).take(after.len() - before.len()));
}

/// Skipping `n` bytes and then `c` more is skipping `n + c`.
proof fn lemma_skip_skip(input: Seq<u8>, n: nat, c: nat)
    requires
        n + c <= input.len(),
    ensures
        input.skip(n as int).skip(c as int) == input.skip(n + c as int),
{
    assert(input.skip(n as int).skip(c as int) =~= input.skip(n + c as int));
}

// ---------------------------------------------------------------- pairs

impl<T: WireEncoding, U: WireEncoding> WireEncoding for (T, U) {
    open spec fn tls_encoding(&self) -> Seq<u8> {
        self.0.tls_encoding() + self.1.tls_encoding()
    }

    open spec fn tls_encoding_error(&self) -> Option<ErrorView> {
        first_error(self.0.tls_encoding_error(), self.1.tls_encoding_error())
    }

    /// What the failing component wrote, after the encodings of those before it.
    open spec fn tls_written_on_error(&self) -> Seq<u8> {
        if self.0.tls_encoding_error() is Some {
            self.0.tls_written_on_error()
        } else {
            self.0.tls_encoding() + self.1.tls_written_on_error()
        }
    }
}

impl<T: WireDecoding, U: WireDecoding> WireDecoding for (T, U) {
    open spec fn tls_decoding(bytes: Seq<u8>) -> Result<((T, U), nat), ErrorView> {
        match T::tls_decoding(bytes) {
            Err(e) => Err(e),
            Ok((t, n)) => match U::tls_decoding(bytes.skip(n as int)) {
                Err(e) => Err(e),
                Ok((u, m)) => Ok(((t, u), n + m)),
            },
        }
    }

    /// Where the failing component's decoding stopped, after the components before it.
    open spec fn tls_consumed_on_error(bytes: Seq<u8>) -> nat {
        match T::tls_decoding(bytes) {
            Err(_) => T::tls_consumed_on_error(bytes),
            Ok((_, n)) => n + U::tls_consumed_on_error(bytes.skip(n as int)),
        }
    }

    proof fn lemma_decoding_of_encoding(v: (T, U), rest: Seq<u8>) {
        let e0 = v.0.tls_encoding();
        let e1 = v.1.tls_encoding();
        assert(v.tls_encoding() + rest =~= e0 + (e1 + rest));
        T::lemma_decoding_of_encoding(v.0, e1 + rest);
        assert((e0 + (e1 + rest)).skip(e0.len() as int) =~= e1 + rest);
        U::lemma_decoding_of_encoding(v.1, rest);
    }

    proof fn lemma_encoding_of_decoding(bytes: Seq<u8>) {
        T::lemma_encoding_of_decoding(bytes);
        if let Ok((t, n)) = T::tls_decoding(bytes) {
            U::lemma_encoding_of_decoding(bytes.skip(n as int));
            if let Ok((u, m)) = U::tls_decoding(bytes.skip(n as int)) {
                assert(bytes.take(n + m as int) =~= bytes.take(n as int) + bytes.skip(
                    n as int,
                ).take(m as int));
            }
        }
    }
}

impl<T: Size, U: Size> Size for (T, U) {
    fn tls_serialized_len(&self) -> (len: usize) {
        self.0.tls_serialized_len() + self.1.tls_serialized_len()
    }
}

impl<T: SizeChecked, U: SizeChecked> SizeChecked for (T, U) {
    fn tls_serialized_len_checked(&self) -> (len: Option<usize>) {
        self.0.tls_serialized_len_checked()?.checked_add(self.1.tls_serialized_len_checked()?)
    }
}

impl<T: Serialize, U: Serialize> Serialize for (T, U) {
    fn tls_serialize(&self, writer: &mut Vec<u8>) -> (r: Result<usize, Error>) {
        let ghost before = writer@;
        let written = match self.0.tls_serialize(writer) {
            Ok(n) => n,
            Err(e) => {
                proof {
                    lemma_prefix_of_front(
                        before,
                        writer@,
                        self.0.tls_encoding(),
                        self.1.tls_encoding(),
                    );
                }
                return Err(e);
            },
        };
        let ghost middle = writer@;
        let second = self.1.tls_serialize(writer);
        proof {
            if second is Err {
                lemma_prefix_of_concat(
                    before,
                    middle,
                    writer@,
                    self.0.tls_encoding(),
                    self.1.tls_encoding(),
                );
            } else {
                assert(writer@ =~= before + self.tls_encoding());
            }
        }
        match second?.checked_add(written) {
            Some(total) => Ok(total),
            None => Err(Error::LibraryError),
        }
    }
}

impl<T: Deserialize, U: Deserialize> Deserialize for (T, U) {
    fn tls_deserialize(bytes: &mut &[u8]) -> (r: Result<Self, Error>) {
        let ghost input = bytes@;
        let first = T::tls_deserialize(bytes)?;
        let ghost middle = bytes@;
        let second = U::tls_deserialize(bytes);
        proof {
            lemma_suffix_of_suffix(bytes@, middle, input);
            T::lemma_encoding_of_decoding(input);
            U::lemma_encoding_of_decoding(middle);
            if let Ok((t, n)) = T::tls_decoding(input) {
                if let Ok((u, m)) = U::tls_decoding(middle) {
                    assert(bytes@ =~= input.skip(n + m as int));
                } else {
                    lemma_skip_skip(input, n, U::tls_consumed_on_error(middle));
                }
            }
        }
        Ok((first, second?))
    }
}

impl<T: DeserializeBytes, U: DeserializeBytes> DeserializeBytes for (T, U) {
    fn tls_deserialize_bytes(bytes: &[u8]) -> (r: Result<(Self, &[u8]), Error>) {
        let (first_element, remainder) = T::tls_deserialize_bytes(bytes)?;
        let ghost middle = remainder@;
        let (second_element, remainder) = U::tls_deserialize_bytes(remainder)?;
        proof {
            T::lemma_encoding_of_decoding(bytes@);
            U::lemma_encoding_of_decoding(middle);
            if let Ok((t, n)) = T::tls_decoding(bytes@) {
                if let Ok((u, m)) = U::tls_decoding(middle) {
                    assert(remainder@ =~= bytes@.skip(n + m as int));
                }
            }
        }
        Ok(((first_element, second_element), remainder))
    }
}

// ---------------------------------------------------------------- triples

impl<T: WireEncoding, U: WireEncoding, V: WireEncoding> WireEncoding for (T, U, V) {
    open spec fn tls_encoding(&self) -> Seq<u8> {
        self.0.tls_encoding() + self.1.tls_encoding() + self.2.tls_encoding()
    }

    open spec fn tls_encoding_error(&self) -> Option<ErrorView> {
        first_error(
            first_error(self.0.tls_encoding_error(), self.1.tls_encoding_error()),
            self.2.tls_encoding_error(),
        )
    }

    /// What the failing component wrote, after the encodings of those before it.
    open spec fn tls_written_on_error(&self) -> Seq<u8> {
        if self.0.tls_encoding_error() is Some {
            self.0.tls_written_on_error()
        } else if self.1.tls_encoding_error() is Some {
            self.0.tls_encoding() + self.1.tls_written_on_error()
        } else {
            self.0.tls_encoding() + self.1.tls_encoding() + self.2.tls_written_on_error()
        }
    }
}

impl<T: WireDecoding, U: WireDecoding, V: WireDecoding> WireDecoding for (T, U, V) {
    open spec fn tls_decoding(bytes: Seq<u8>) -> Result<((T, U, V), nat), ErrorView> {
        match T::tls_decoding(bytes) {
            Err(e) => Err(e),
            Ok((t, n)) => match U::tls_decoding(bytes.skip(n as int)) {
                Err(e) => Err(e),
                Ok((u, m)) => match V::tls_decoding(bytes.skip(n + m as int)) {
                    Err(e) => Err(e),
                    Ok((w, k)) => Ok(((t, u, w), n + m + k)),
                },
            },
        }
    }

    /// Where the failing component's decoding stopped, after the components before it.
    open spec fn tls_consumed_on_error(bytes: Seq<u8>) -> nat {
        match T::tls_decoding(bytes) {
            Err(_) => T::tls_consumed_on_error(bytes),
            Ok((_, n)) => match U::tls_decoding(bytes.skip(n as int)) {
                Err(_) => n + U::tls_consumed_on_error(bytes.skip(n as int)),
                Ok((_, m)) => n + m + V::tls_consumed_on_error(bytes.skip(n + m as int)),
            },
        }
    }

    proof fn lemma_decoding_of_encoding(v: (T, U, V), rest: Seq<u8>) {
        let e0 = v.0.tls_encoding();
        let e1 = v.1.tls_encoding();
        let e2 = v.2.tls_encoding();
        let bytes = v.tls_encoding() + rest;
        assert(bytes =~= e0 + (e1 + e2 + rest));
        T::lemma_decoding_of_encoding(v.0, e1 + e2 + rest);
        assert(bytes.skip(e0.len() as int) =~= e1 + (e2 + rest));
        U::lemma_decoding_of_encoding(v.1, e2 + rest);
        assert(bytes.skip(e0.len() + e1.len() as int) =~= e2 + rest);
        V::lemma_decoding_of_encoding(v.2, rest);
    }

    proof fn lemma_encoding_of_decoding(bytes: Seq<u8>) {
        T::lemma_encoding_of_decoding(bytes);
        if let Ok((t, n)) = T::tls_decoding(bytes) {
            U::lemma_encoding_of_decoding(bytes.skip(n as int));
            if let Ok((u, m)) = U::tls_decoding(bytes.skip(n as int)) {
                assert(bytes.skip(n as int).skip(m as int) =~= bytes.skip(n + m as int));
                V::lemma_encoding_of_decoding(bytes.skip(n + m as int));
                if let Ok((w, k)) = V::tls_decoding(bytes.skip(n + m as int)) {
                    assert(bytes.take(n + m + k as int) =~= bytes.take(n as int) + bytes.skip(
                        n as int,
                    ).take(m as int) + bytes.skip(n + m as int).take(k as int));
                }
            }
        }
    }
}

impl<T: Size, U: Size, V: Size> Size for (T, U, V) {
    fn tls_serialized_len(&self) -> (len: usize) {
        self.0.tls_serialized_len() + self.1.tls_serialized_len() + self.2.tls_serialized_len()
    }
}

impl<T: SizeChecked, U: SizeChecked, V: SizeChecked> SizeChecked for (T, U, V) {
    fn tls_serialized_len_checked(&self) -> (len: Option<usize>) {
        self.0.tls_serialized_len_checked()?.checked_add(
            self.1.tls_serialized_len_checked()?,
        )?.checked_add(self.2.tls_serialized_len_checked()?)
    }
}

impl<T: Serialize, U: Serialize, V: Serialize> Serialize for (T, U, V) {
    fn tls_serialize(&self, writer: &mut Vec<u8>) -> (r: Result<usize, Error>) {
        let ghost before = writer@;
        let ghost e0 = self.0.tls_encoding();
        let ghost e1 = self.1.tls_encoding();
        let ghost e2 = self.2.tls_encoding();
        proof {
            assert(self.tls_encoding() =~= e0 + (e1 + e2));
        }
        let written = match self.0.tls_serialize(writer) {
            Ok(n) => n,
            Err(e) => {
                proof {
                    lemma_prefix_of_front(before, writer@, e0, e1 + e2);
                }
                return Err(e);
            },
        };
        let ghost middle = writer@;
        let second = match self.1.tls_serialize(writer) {
            Ok(n) => n,
            Err(e) => {
                proof {
                    lemma_prefix_of_front(middle, writer@, e1, e2);
                    lemma_prefix_of_concat(before, middle, writer@, e0, e1 + e2);
                }
                return Err(e);
            },
        };
        let written = match written.checked_add(second) {
            Some(total) => total,
            None => return Err(Error::LibraryError),
        };
        let ghost later = writer@;
        let third = self.2.tls_serialize(writer);
        proof {
            if third is Err {
                lemma_prefix_of_concat(middle, later, writer@, e1, e2);
                lemma_prefix_of_concat(before, middle, writer@, e0, e1 + e2);
            } else {
                assert(writer@ =~= before + self.tls_encoding());
            }
        }
        match third?.checked_add(written) {
            Some(total) => Ok(total),
            None => Err(Error::LibraryError),
        }
    }
}

impl<T: Deserialize, U: Deserialize, V: Deserialize> Deserialize for (T, U, V) {
    fn tls_deserialize(bytes: &mut &[u8]) -> (r: Result<Self, Error>) {
        let ghost input = bytes@;
        let first = T::tls_deserialize(bytes)?;
        let ghost middle = bytes@;
        let second = match U::tls_deserialize(bytes) {
            Ok(x) => x,
            Err(e) => {
                proof {
                    lemma_suffix_of_suffix(bytes@, middle, input);
                    T::lemma_encoding_of_decoding(input);
                    if let Ok((t, n)) = T::tls_decoding(input) {
                        lemma_skip_skip(input, n, U::tls_consumed_on_error(middle));
                    }
                }
                return Err(e);
            },
        };
        let ghost later = bytes@;
        let third = V::tls_deserialize(bytes);
        proof {
            lemma_suffix_of_suffix(later, middle, input);
            lemma_suffix_of_suffix(bytes@, later, input);
            T::lemma_encoding_of_decoding(input);
            U::lemma_encoding_of_decoding(middle);
            V::lemma_encoding_of_decoding(later);
            if let Ok((t, n)) = T::tls_decoding(input) {
                if let Ok((u, m)) = U::tls_decoding(middle) {
                    assert(later =~= input.skip(n + m as int));
                    if let Ok((w, k)) = V::tls_decoding(later) {
                        assert(bytes@ =~= input.skip(n + m + k as int));
                    } else {
                        lemma_skip_skip(input, n + m, V::tls_consumed_on_error(later));
                    }
                }
            }
        }
        Ok((first, second, third?))
    }
}

impl<T: DeserializeBytes, U: DeserializeBytes, V: DeserializeBytes> DeserializeBytes for (
    T,
    U,
    V,
) {
    fn tls_deserialize_bytes(bytes: &[u8]) -> (r: Result<(Self, &[u8]), Error>) {
        let (first_element, remainder) = T::tls_deserialize_bytes(bytes)?;
        let ghost middle = remainder@;
        let (second_element, remainder) = U::tls_deserialize_bytes(remainder)?;
        let ghost later = remainder@;
        proof {
            T::lemma_encoding_of_decoding(bytes@);
            U::lemma_encoding_of_decoding(middle);
            V::lemma_encoding_of_decoding(later);
            if let Ok((t, n)) = T::tls_decoding(bytes@) {
                if let Ok((u, m)) = U::tls_decoding(middle) {
                    assert(later =~= bytes@.skip(n + m as int));
                }
            }
        }
        let (third_element, remainder) = V::tls_deserialize_bytes(remainder)?;
        proof {
            if let Ok((t, n)) = T::tls_decoding(bytes@) {
                if let Ok((u, m)) = U::tls_decoding(middle) {
                    if let Ok((w, k)) = V::tls_decoding(later) {
                        assert(remainder@ =~= bytes@.skip(n + m + k as int));
                    }
                }
            }
        }
        Ok(((first_element, second_element, third_element), remainder))
    }
}

} // verus!
