//! Three-byte unsigned integers, as TLS uses for lengths up to 2^24 - 1.
use vstd::prelude::*;
use crate::be::{be_bytes, be_value, byte_range, lemma_be_bytes_of_value, lemma_be_value_bound};
use crate::codec::{
    read_exact, Deserialize, DeserializeBytes, Serialize, SerializeBytes, Size, SizeChecked,
    WireDecoding, WireEncoding,
};
use crate::error::{Error, ErrorView};

verus! {

/// An unsigned integer of three bytes, kept in network byte order.
#[derive(Clone, Copy, Debug, Default, PartialEq, Eq, Hash)]
pub struct U24([u8; 3]);

impl View for U24 {
    type V = Seq<u8>;

    /// The three bytes, most significant first.
    open spec fn view(&self) -> Seq<u8> {
        seq![self.byte(0), self.byte(1), self.byte(2)]
    }
}

impl U24 {
    /// Byte `i`, counted from the most significant.
    pub closed spec fn byte(&self, i: int) -> u8 {
        self.0[i]
    }

    /// The number that the three bytes hold.
    pub open spec fn value(&self) -> nat {
        be_value(self@)
    }

    /// The `U24` whose bytes are the first three of `bytes`.
    pub closed spec fn from_seq(bytes: Seq<u8>) -> U24 {
        U24([bytes[0], bytes[1], bytes[2]])
    }

    /// A `U24` is three bytes, and holds a value below 2^24.
    pub proof fn lemma_view(self)
        ensures
            self@.len() == 3,
            self.value() < 0x100_0000,
            be_bytes(self.value(), 3) == self@,
    {
        lemma_be_value_bound(self@);
        reveal_with_fuel(byte_range, 4);
        lemma_be_bytes_of_value(self@);
    }

    /// `from_seq` keeps the bytes it is given, and gives back a `U24` from its bytes.
    pub proof fn lemma_from_seq(bytes: Seq<u8>, u: U24)
        ensures
            bytes.len() == 3 ==> U24::from_seq(bytes)@ == bytes,
            U24::from_seq(u@) == u,
    {
        if bytes.len() == 3 {
            assert(U24::from_seq(bytes)@ =~= bytes);
        }
        assert(U24::from_seq(u@).0 =~= u.0);
    }

    /// The `U24` with these bytes, most significant first.
    pub fn from_be_bytes(bytes: [u8; 3]) -> (r: Self)
        ensures
            r@ == bytes@,
    {
        let r = U24(bytes);
        assert(r@ =~= bytes@);
        r
    }

    /// The three bytes, most significant first.
    pub fn to_be_bytes(self) -> (r: [u8; 3])
        ensures
            r@ == self@,
    {
        assert(self.0@ =~= self@);
        self.0
    }
}

impl WireEncoding for U24 {
    open spec fn tls_encoding(&self) -> Seq<u8> {
        self@
    }

    open spec fn tls_encoding_error(&self) -> Option<ErrorView> {
        None
    }

    open spec fn tls_written_on_error(&self) -> Seq<u8> {
        Seq::empty()
    }
}

impl WireDecoding for U24 {
    open spec fn tls_decoding(bytes: Seq<u8>) -> Result<(U24, nat), ErrorView> {
        if bytes.len() < 3 {
            Err(ErrorView::EndOfStream)
        } else {
            Ok((U24::from_seq(bytes.take(3)), 3))
        }
    }

    /// Decoding fails only on short input, which the reader uses up.
    open spec fn tls_consumed_on_error(bytes: Seq<u8>) -> nat {
        bytes.len()
    }

    proof fn lemma_decoding_of_encoding(v: U24, rest: Seq<u8>) {
        v.lemma_view();
        assert((v@ + rest).take(3) =~= v@);
        U24::lemma_from_seq(v@, v);
    }

    proof fn lemma_encoding_of_decoding(bytes: Seq<u8>) {
        if bytes.len() >= 3 {
            U24::lemma_from_seq(bytes.take(3), U24::from_seq(bytes.take(3)));
        }
    }
}

impl Size for U24 {
    fn tls_serialized_len(&self) -> (len: usize) {
        proof {
            self.lemma_view();
        }
        3
    }
}

impl SizeChecked for U24 {
    fn tls_serialized_len_checked(&self) -> (len: Option<usize>) {
        proof {
            self.lemma_view();
        }
        Some(3)
    }
}

impl<'a> Size for &'a U24 {
    fn tls_serialized_len(&self) -> (len: usize) {
        (**self).tls_serialized_len()
    }
}

impl<'a> SizeChecked for &'a U24 {
    fn tls_serialized_len_checked(&self) -> (len: Option<usize>) {
        (**self).tls_serialized_len_checked()
    }
}

impl Serialize for U24 {
    fn tls_serialize(&self, writer: &mut Vec<u8>) -> (r: Result<usize, Error>) {
        proof {
            self.lemma_view();
        }
        let bytes = self.to_be_bytes();
        writer.push(bytes[0]);
        writer.push(bytes[1]);
        writer.push(bytes[2]);
        assert(writer@ =~= old(writer)@ + self@);
        Ok(3)
    }
}

impl<'a> Serialize for &'a U24 {
    fn tls_serialize(&self, writer: &mut Vec<u8>) -> (r: Result<usize, Error>) {
        <U24 as Serialize>::tls_serialize(*self, writer)
    }
}

impl<'a> SerializeBytes for &'a U24 {
    fn tls_serialize(&self) -> (r: Result<Vec<u8>, Error>) {
        let bytes = self.to_be_bytes();
        let out = vstd::slice::slice_to_vec(vstd::array::array_as_slice(&bytes));
        Ok(out)
    }
}

impl SerializeBytes for U24 {
    fn tls_serialize(&self) -> (r: Result<Vec<u8>, Error>) {
        <&Self as SerializeBytes>::tls_serialize(&self)
    }
}

impl Deserialize for U24 {
    fn tls_deserialize(bytes: &mut &[u8]) -> (r: Result<Self, Error>) {
        let taken = read_exact(bytes, 3)?;
        let x = U24::from_be_bytes([taken[0], taken[1], taken[2]]);
        proof {
            U24::lemma_from_seq(old(bytes)@.take(3), x);
            assert(x@ =~= old(bytes)@.take(3));
            U24::lemma_from_seq(x@, x);
        }
        Ok(x)
    }
}

impl DeserializeBytes for U24 {
    fn tls_deserialize_bytes(bytes: &[u8]) -> (r: Result<(Self, &[u8]), Error>) {
        if bytes.len() < 3 {
            return Err(Error::EndOfStream);
        }
        let (head, rest) = bytes.split_at(3);
        let x = U24::from_be_bytes([head[0], head[1], head[2]]);
        proof {
            assert(x@ =~= bytes@.take(3));
            U24::lemma_from_seq(x@, x);
        }
        Ok((x, rest))
    }
}

} // verus!
