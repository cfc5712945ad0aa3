//! Unsigned integers: `n` bytes in network byte order.
use vstd::prelude::*;
use crate::be::{
    be_bytes, be_read, be_value, be_write, byte_range, lemma_be_bytes_of_value,
    lemma_be_value_bound, lemma_be_value_of_bytes, lemma_byte_range_values,
};
use crate::codec::{
    read_exact, Deserialize, DeserializeBytes, Serialize, SerializeBytes, Size, SizeChecked,
    WireDecoding, WireEncoding,
};
use crate::error::{Error, ErrorView};

verus! {

/// Decoding an unsigned integer of `n` bytes from the front of `bytes`: its
/// value and `n`, or `EndOfStream` where fewer than `n` bytes are left.
pub open spec fn uint_decoding(bytes: Seq<u8>, n: nat) -> Result<(nat, nat), ErrorView> {
    if bytes.len() < n {
        Err(ErrorView::EndOfStream)
    } else {
        Ok((be_value(bytes.take(n as int)), n))
    }
}

/// An unsigned integer of `n` bytes decodes from its own bytes, whatever follows.
pub proof fn lemma_uint_decoding_of_bytes(v: nat, n: nat, rest: Seq<u8>)
    requires
        v < byte_range(n),
    ensures
        be_bytes(v, n).len() == n,
        uint_decoding(be_bytes(v, n) + rest, n) == Ok::<(nat, nat), ErrorView>((v, n)),
{
    lemma_be_value_of_bytes(v, n);
    assert((be_bytes(v, n) + rest).take(n as int) =~= be_bytes(v, n));
}

/// What an unsigned integer decodes from is its own bytes.
pub proof fn lemma_uint_bytes_of_decoding(bytes: Seq<u8>, n: nat)
    ensures
        uint_decoding(bytes, n) matches Ok((v, m)) ==> {
            &&& m == n
            &&& n <= bytes.len()
            &&& v < byte_range(n)
            &&& bytes.take(n as int) == be_bytes(v, n)
        },
{
    if n <= bytes.len() {
        lemma_be_value_bound(bytes.take(n as int));
        lemma_be_bytes_of_value(bytes.take(n as int));
    }
}

/// A byte decodes as itself.
pub proof fn lemma_u8_decoding(bytes: Seq<u8>)
    ensures
        bytes.len() == 0 ==> <u8 as WireDecoding>::tls_decoding(bytes) == Err::<(u8, nat), ErrorView>(
            ErrorView::EndOfStream,
        ),
        bytes.len() > 0 ==> <u8 as WireDecoding>::tls_decoding(bytes) == Ok::<(u8, nat), ErrorView>(
            (bytes[0], 1),
        ),
{
    if bytes.len() > 0 {
        let head = bytes.take(1);
        assert(head.drop_last() =~= Seq::<u8>::empty());
        assert(be_value(head.drop_last()) == 0);
        assert(head.last() == bytes[0]);
        assert(be_value(head) == bytes[0] as nat);
    }
}

// ---------------------------------------------------------------- u8

impl WireEncoding for u8 {
    open spec fn tls_encoding(&self) -> Seq<u8> {
        be_bytes(*self as nat, 1)
    }

    open spec fn tls_encoding_error(&self) -> Option<ErrorView> {
        None
    }

    open spec fn tls_written_on_error(&self) -> Seq<u8> {
        Seq::empty()
    }
}

impl WireDecoding for u8 {
    open spec fn tls_decoding(bytes: Seq<u8>) -> Result<(u8, nat), ErrorView> {
        match uint_decoding(bytes, 1) {
            Ok((v, n)) => Ok((v as u8, n)),
            Err(e) => Err(e),
        }
    }

    /// Decoding fails only on short input, which the reader uses up.
    open spec fn tls_consumed_on_error(bytes: Seq<u8>) -> nat {
        bytes.len()
    }

    proof fn lemma_decoding_of_encoding(v: u8, rest: Seq<u8>) {
        lemma_byte_range_values();
        lemma_uint_decoding_of_bytes(v as nat, 1, rest);
    }

    proof fn lemma_encoding_of_decoding(bytes: Seq<u8>) {
        lemma_byte_range_values();
        lemma_uint_bytes_of_decoding(bytes, 1);
    }
}

impl Size for u8 {
    fn tls_serialized_len(&self) -> (len: usize) {
        1
    }
}

impl SizeChecked for u8 {
    fn tls_serialized_len_checked(&self) -> (len: Option<usize>) {
        Some(1)
    }
}

impl<'a> Size for &'a u8 {
    fn tls_serialized_len(&self) -> (len: usize) {
        (**self).tls_serialized_len()
    }
}

impl<'a> SizeChecked for &'a u8 {
    fn tls_serialized_len_checked(&self) -> (len: Option<usize>) {
        (**self).tls_serialized_len_checked()
    }
}

impl Serialize for u8 {
    fn tls_serialize(&self, writer: &mut Vec<u8>) -> (r: Result<usize, Error>) {
        be_write(*self as u64, 1, writer);
        Ok(1)
    }
}

impl<'a> Serialize for &'a u8 {
    fn tls_serialize(&self, writer: &mut Vec<u8>) -> (r: Result<usize, Error>) {
        <u8 as Serialize>::tls_serialize(*self, writer)
    }
}

impl<'a> SerializeBytes for &'a u8 {
    fn tls_serialize(&self) -> (r: Result<Vec<u8>, Error>) {
        let mut out: Vec<u8> = Vec::new();
        be_write(**self as u64, 1, &mut out);
        assert(out@ =~= self.tls_encoding());
        Ok(out)
    }
}

impl SerializeBytes for u8 {
    fn tls_serialize(&self) -> (r: Result<Vec<u8>, Error>) {
        <&Self as SerializeBytes>::tls_serialize(&self)
    }
}

impl Deserialize for u8 {
    fn tls_deserialize(bytes: &mut &[u8]) -> (r: Result<Self, Error>) {
        let taken = read_exact(bytes, 1)?;
        proof {
            lemma_byte_range_values();
            assert(taken@.take(1) =~= taken@);
            lemma_be_value_bound(taken@);
        }
        Ok(be_read(taken, 1) as u8)
    }
}

impl DeserializeBytes for u8 {
    fn tls_deserialize_bytes(bytes: &[u8]) -> (r: Result<(Self, &[u8]), Error>) {
        if bytes.len() < 1 {
            return Err(Error::EndOfStream);
        }
        let (head, rest) = bytes.split_at(1);
        proof {
            lemma_byte_range_values();
            lemma_be_value_bound(head@);
            assert(head@.take(1) =~= bytes@.take(1));
        }
        Ok((be_read(head, 1) as u8, rest))
    }
}

// ---------------------------------------------------------------- u16

impl WireEncoding for u16 {
    open spec fn tls_encoding(&self) -> Seq<u8> {
        be_bytes(*self as nat, 2)
    }

    open spec fn tls_encoding_error(&self) -> Option<ErrorView> {
        None
    }

    open spec fn tls_written_on_error(&self) -> Seq<u8> {
        Seq::empty()
    }
}

impl WireDecoding for u16 {
    open spec fn tls_decoding(bytes: Seq<u8>) -> Result<(u16, nat), ErrorView> {
        match uint_decoding(bytes, 2) {
            Ok((v, n)) => Ok((v as u16, n)),
            Err(e) => Err(e),
        }
    }

    /// Decoding fails only on short input, which the reader uses up.
    open spec fn tls_consumed_on_error(bytes: Seq<u8>) -> nat {
        bytes.len()
    }

    proof fn lemma_decoding_of_encoding(v: u16, rest: Seq<u8>) {
        lemma_byte_range_values();
        lemma_uint_decoding_of_bytes(v as nat, 2, rest);
    }

    proof fn lemma_encoding_of_decoding(bytes: Seq<u8>) {
        lemma_byte_range_values();
        lemma_uint_bytes_of_decoding(bytes, 2);
    }
}

impl Size for u16 {
    fn tls_serialized_len(&self) -> (len: usize) {
        2
    }
}

impl SizeChecked for u16 {
    fn tls_serialized_len_checked(&self) -> (len: Option<usize>) {
        Some(2)
    }
}

impl<'a> Size for &'a u16 {
    fn tls_serialized_len(&self) -> (len: usize) {
        (**self).tls_serialized_len()
    }
}

impl<'a> SizeChecked for &'a u16 {
    fn tls_serialized_len_checked(&self) -> (len: Option<usize>) {
        (**self).tls_serialized_len_checked()
    }
}

impl Serialize for u16 {
    fn tls_serialize(&self, writer: &mut Vec<u8>) -> (r: Result<usize, Error>) {
        be_write(*self as u64, 2, writer);
        Ok(2)
    }
}

impl<'a> Serialize for &'a u16 {
    fn tls_serialize(&self, writer: &mut Vec<u8>) -> (r: Result<usize, Error>) {
        <u16 as Serialize>::tls_serialize(*self, writer)
    }
}

impl<'a> SerializeBytes for &'a u16 {
    fn tls_serialize(&self) -> (r: Result<Vec<u8>, Error>) {
        let mut out: Vec<u8> = Vec::new();
        be_write(**self as u64, 2, &mut out);
        assert(out@ =~= self.tls_encoding());
        Ok(out)
    }
}

impl SerializeBytes for u16 {
    fn tls_serialize(&self) -> (r: Result<Vec<u8>, Error>) {
        <&Self as SerializeBytes>::tls_serialize(&self)
    }
}

impl Deserialize for u16 {
    fn tls_deserialize(bytes: &mut &[u8]) -> (r: Result<Self, Error>) {
        let taken = read_exact(bytes, 2)?;
        proof {
            lemma_byte_range_values();
            assert(taken@.take(2) =~= taken@);
            lemma_be_value_bound(taken@);
        }
        Ok(be_read(taken, 2) as u16)
    }
}

impl DeserializeBytes for u16 {
    fn tls_deserialize_bytes(bytes: &[u8]) -> (r: Result<(Self, &[u8]), Error>) {
        if bytes.len() < 2 {
            return Err(Error::EndOfStream);
        }
        let (head, rest) = bytes.split_at(2);
        proof {
            lemma_byte_range_values();
            lemma_be_value_bound(head@);
            assert(head@.take(2) =~= bytes@.take(2));
        }
        Ok((be_read(head, 2) as u16, rest))
    }
}

// ---------------------------------------------------------------- u32

impl WireEncoding for u32 {
    open spec fn tls_encoding(&self) -> Seq<u8> {
        be_bytes(*self as nat, 4)
    }

    open spec fn tls_encoding_error(&self) -> Option<ErrorView> {
        None
    }

    open spec fn tls_written_on_error(&self) -> Seq<u8> {
        Seq::empty()
    }
}

impl WireDecoding for u32 {
    open spec fn tls_decoding(bytes: Seq<u8>) -> Result<(u32, nat), ErrorView> {
        match uint_decoding(bytes, 4) {
            Ok((v, n)) => Ok((v as u32, n)),
            Err(e) => Err(e),
        }
    }

    /// Decoding fails only on short input, which the reader uses up.
    open spec fn tls_consumed_on_error(bytes: Seq<u8>) -> nat {
        bytes.len()
    }

    proof fn lemma_decoding_of_encoding(v: u32, rest: Seq<u8>) {
        lemma_byte_range_values();
        lemma_uint_decoding_of_bytes(v as nat, 4, rest);
    }

    proof fn lemma_encoding_of_decoding(bytes: Seq<u8>) {
        lemma_byte_range_values();
        lemma_uint_bytes_of_decoding(bytes, 4);
    }
}

impl Size for u32 {
    fn tls_serialized_len(&self) -> (len: usize) {
        4
    }
}

impl SizeChecked for u32 {
    fn tls_serialized_len_checked(&self) -> (len: Option<usize>) {
        Some(4)
    }
}

impl<'a> Size for &'a u32 {
    fn tls_serialized_len(&self) -> (len: usize) {
        (**self).tls_serialized_len()
    }
}

impl<'a> SizeChecked for &'a u32 {
    fn tls_serialized_len_checked(&self) -> (len: Option<usize>) {
        (**self).tls_serialized_len_checked()
    }
}

impl Serialize for u32 {
    fn tls_serialize(&self, writer: &mut Vec<u8>) -> (r: Result<usize, Error>) {
        be_write(*self as u64, 4, writer);
        Ok(4)
    }
}

impl<'a> Serialize for &'a u32 {
    fn tls_serialize(&self, writer: &mut Vec<u8>) -> (r: Result<usize, Error>) {
        <u32 as Serialize>::tls_serialize(*self, writer)
    }
}

impl<'a> SerializeBytes for &'a u32 {
    fn tls_serialize(&self) -> (r: Result<Vec<u8>, Error>) {
        let mut out: Vec<u8> = Vec::new();
        be_write(**self as u64, 4, &mut out);
        assert(out@ =~= self.tls_encoding());
        Ok(out)
    }
}

impl SerializeBytes for u32 {
    fn tls_serialize(&self) -> (r: Result<Vec<u8>, Error>) {
        <&Self as SerializeBytes>::tls_serialize(&self)
    }
}

impl Deserialize for u32 {
    fn tls_deserialize(bytes: &mut &[u8]) -> (r: Result<Self, Error>) {
        let taken = read_exact(bytes, 4)?;
        proof {
            lemma_byte_range_values();
            assert(taken@.take(4) =~= taken@);
            lemma_be_value_bound(taken@);
        }
        Ok(be_read(taken, 4) as u32)
    }
}

impl DeserializeBytes for u32 {
    fn tls_deserialize_bytes(bytes: &[u8]) -> (r: Result<(Self, &[u8]), Error>) {
        if bytes.len() < 4 {
            return Err(Error::EndOfStream);
        }
        let (head, rest) = bytes.split_at(4);
        proof {
            lemma_byte_range_values();
            lemma_be_value_bound(head@);
            assert(head@.take(4) =~= bytes@.take(4));
        }
        Ok((be_read(head, 4) as u32, rest))
    }
}

// ---------------------------------------------------------------- u64

impl WireEncoding for u64 {
    open spec fn tls_encoding(&self) -> Seq<u8> {
        be_bytes(*self as nat, 8)
    }

    open spec fn tls_encoding_error(&self) -> Option<ErrorView> {
        None
    }

    open spec fn tls_written_on_error(&self) -> Seq<u8> {
        Seq::empty()
    }
}

impl WireDecoding for u64 {
    open spec fn tls_decoding(bytes: Seq<u8>) -> Result<(u64, nat), ErrorView> {
        match uint_decoding(bytes, 8) {
            Ok((v, n)) => Ok((v as u64, n)),
            Err(e) => Err(e),
        }
    }

    /// Decoding fails only on short input, which the reader uses up.
    open spec fn tls_consumed_on_error(bytes: Seq<u8>) -> nat {
        bytes.len()
    }

    proof fn lemma_decoding_of_encoding(v: u64, rest: Seq<u8>) {
        lemma_byte_range_values();
        lemma_uint_decoding_of_bytes(v as nat, 8, rest);
    }

    proof fn lemma_encoding_of_decoding(bytes: Seq<u8>) {
        lemma_byte_range_values();
        lemma_uint_bytes_of_decoding(bytes, 8);
    }
}

impl Size for u64 {
    fn tls_serialized_len(&self) -> (len: usize) {
        8
    }
}

impl SizeChecked for u64 {
    fn tls_serialized_len_checked(&self) -> (len: Option<usize>) {
        Some(8)
    }
}

impl<'a> Size for &'a u64 {
    fn tls_serialized_len(&self) -> (len: usize) {
        (**self).tls_serialized_len()
    }
}

impl<'a> SizeChecked for &'a u64 {
    fn tls_serialized_len_checked(&self) -> (len: Option<usize>) {
        (**self).tls_serialized_len_checked()
    }
}

impl Serialize for u64 {
    fn tls_serialize(&self, writer: &mut Vec<u8>) -> (r: Result<usize, Error>) {
        be_write(*self, 8, writer);
        Ok(8)
    }
}

impl<'a> Serialize for &'a u64 {
    fn tls_serialize(&self, writer: &mut Vec<u8>) -> (r: Result<usize, Error>) {
        <u64 as Serialize>::tls_serialize(*self, writer)
    }
}

impl<'a> SerializeBytes for &'a u64 {
    fn tls_serialize(&self) -> (r: Result<Vec<u8>, Error>) {
        let mut out: Vec<u8> = Vec::new();
        be_write(**self, 8, &mut out);
        assert(out@ =~= self.tls_encoding());
        Ok(out)
    }
}

impl SerializeBytes for u64 {
    fn tls_serialize(&self) -> (r: Result<Vec<u8>, Error>) {
        <&Self as SerializeBytes>::tls_serialize(&self)
    }
}

impl Deserialize for u64 {
    fn tls_deserialize(bytes: &mut &[u8]) -> (r: Result<Self, Error>) {
        let taken = read_exact(bytes, 8)?;
        proof {
            lemma_byte_range_values();
            assert(taken@.take(8) =~= taken@);
            lemma_be_value_bound(taken@);
        }
        Ok(be_read(taken, 8))
    }
}

impl DeserializeBytes for u64 {
    fn tls_deserialize_bytes(bytes: &[u8]) -> (r: Result<(Self, &[u8]), Error>) {
        if bytes.len() < 8 {
            return Err(Error::EndOfStream);
        }
        let (head, rest) = bytes.split_at(8);
        proof {
            lemma_byte_range_values();
            lemma_be_value_bound(head@);
            assert(head@.take(8) =~= bytes@.take(8));
        }
        Ok((be_read(head, 8), rest))
    }
}

} // verus!
