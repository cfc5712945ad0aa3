//! The wire format of each type, stated byte by byte and component by
//! component: integers are their digits in base 256, most significant first;
//! an option is a presence byte and the value; a pair or triple is its
//! components one after the other; a box is its contents.
use vstd::prelude::*;
use core::marker::PhantomData;
use crate::be::{be_bytes, be_value, byte_range, lemma_byte_range_values};
use crate::codec::{WireDecoding, WireEncoding};
use crate::error::{option_tag_text, ErrorView};
use crate::u24::U24;

verus! {

/// Reading one more byte multiplies what was read by 256 and adds the byte.
proof fn lemma_be_value_take_step(bytes: Seq<u8>, k: nat)
    requires
        k < bytes.len(),
    ensures
        be_value(bytes.take(0)) == 0,
        be_value(bytes.take(k + 1 as int)) == be_value(bytes.take(k as int)) * 256 + bytes[k as int],
{
    assert(bytes.take(0) =~= Seq::<u8>::empty());
    assert(bytes.take(k + 1 as int).drop_last() =~= bytes.take(k as int));
}

/// The first `n` bytes of an input, read in network byte order, for `n` up to 8.
proof fn lemma_be_value_prefix(bytes: Seq<u8>)
    ensures
        bytes.len() >= 1 ==> be_value(bytes.take(1)) == bytes[0],
        bytes.len() >= 2 ==> be_value(bytes.take(2)) == bytes[0] * 0x100 + bytes[1],
        bytes.len() >= 3 ==> be_value(bytes.take(3)) == bytes[0] * 0x1_0000 + bytes[1] * 0x100
            + bytes[2],
        bytes.len() >= 4 ==> be_value(bytes.take(4)) == bytes[0] * 0x100_0000 + bytes[1]
            * 0x1_0000 + bytes[2] * 0x100 + bytes[3],
        bytes.len() >= 8 ==> be_value(bytes.take(8)) == bytes[0] * 0x100_0000_0000_0000
            + bytes[1] * 0x1_0000_0000_0000 + bytes[2] * 0x100_0000_0000 + bytes[3]
            * 0x1_0000_0000 + bytes[4] * 0x100_0000 + bytes[5] * 0x1_0000 + bytes[6] * 0x100
            + bytes[7],
{
    if bytes.len() >= 1 {
        lemma_be_value_take_step(bytes, 0);
    }
    if bytes.len() >= 2 {
        lemma_be_value_take_step(bytes, 1);
    }
    if bytes.len() >= 3 {
        lemma_be_value_take_step(bytes, 2);
    }
    if bytes.len() >= 4 {
        lemma_be_value_take_step(bytes, 3);
    }
    if bytes.len() >= 8 {
        lemma_be_value_take_step(bytes, 4);
        lemma_be_value_take_step(bytes, 5);
        lemma_be_value_take_step(bytes, 6);
        lemma_be_value_take_step(bytes, 7);
    }
}

/// Byte `i` of the `n` bytes of `v` is digit `n - 1 - i` in base 256.
proof fn lemma_digit(v: nat, n: nat, i: int, d: nat)
    requires
        0 <= i < n,
        byte_range((n - 1 - i) as nat) == d,
    ensures
        be_bytes(v, n)[i] == ((v / d) % 256) as u8,
{
}

/// A byte encodes as itself, can always be encoded, and decodes from the
/// first byte of an input; an empty input is `EndOfStream`.
pub proof fn lemma_u8_format(v: u8, bytes: Seq<u8>)
    ensures
        v.tls_encoding() == seq![v],
        v.tls_encoding_error() is None,
        bytes.len() >= 1 ==> <u8 as WireDecoding>::tls_decoding(bytes) == Ok::<(u8, nat), ErrorView>(
            (bytes[0], 1),
        ),
        bytes.len() < 1 ==> <u8 as WireDecoding>::tls_decoding(bytes) == Err::<(u8, nat), ErrorView>(
            ErrorView::EndOfStream,
        ),
{
    lemma_byte_range_values();
    assert(byte_range(0) == 1);
    lemma_digit(v as nat, 1, 0, 1);
    assert(v.tls_encoding() =~= seq![v]);
    lemma_be_value_prefix(bytes);
}

/// A `u16` encodes as its high byte then its low byte, and decodes from the
/// first two bytes of an input as `256 * first + second`.
pub proof fn lemma_u16_format(v: u16, bytes: Seq<u8>)
    ensures
        v.tls_encoding() == seq![(v / 0x100) as u8, (v % 0x100) as u8],
        v.tls_encoding_error() is None,
        bytes.len() >= 2 ==> <u16 as WireDecoding>::tls_decoding(bytes) == Ok::<
            (u16, nat),
            ErrorView,
        >(((bytes[0] * 0x100 + bytes[1]) as u16, 2)),
        bytes.len() < 2 ==> <u16 as WireDecoding>::tls_decoding(bytes) == Err::<
            (u16, nat),
            ErrorView,
        >(ErrorView::EndOfStream),
{
    lemma_byte_range_values();
    assert(byte_range(0) == 1);
    assert((v / 0x100) % 0x100 == v / 0x100);
    lemma_digit(v as nat, 2, 0, 0x100);
    lemma_digit(v as nat, 2, 1, 1);
    assert(v.tls_encoding() =~= seq![(v / 0x100) as u8, (v % 0x100) as u8]);
    lemma_be_value_prefix(bytes);
}

/// A `u32` encodes as its four base-256 digits, most significant first, and
/// decodes from the first four bytes of an input.
pub proof fn lemma_u32_format(v: u32, bytes: Seq<u8>)
    ensures
        v.tls_encoding() == seq![
            (v / 0x100_0000) as u8,
            ((v / 0x1_0000) % 0x100) as u8,
            ((v / 0x100) % 0x100) as u8,
            (v % 0x100) as u8,
        ],
        v.tls_encoding_error() is None,
        bytes.len() >= 4 ==> <u32 as WireDecoding>::tls_decoding(bytes) == Ok::<
            (u32, nat),
            ErrorView,
        >(
            (
                (bytes[0] * 0x100_0000 + bytes[1] * 0x1_0000 + bytes[2] * 0x100 + bytes[3]) as u32,
                4,
            ),
        ),
        bytes.len() < 4 ==> <u32 as WireDecoding>::tls_decoding(bytes) == Err::<
            (u32, nat),
            ErrorView,
        >(ErrorView::EndOfStream),
{
    lemma_byte_range_values();
    assert(byte_range(0) == 1);
    assert((v / 0x100_0000) % 0x100 == v / 0x100_0000);
    lemma_digit(v as nat, 4, 0, 0x100_0000);
    lemma_digit(v as nat, 4, 1, 0x1_0000);
    lemma_digit(v as nat, 4, 2, 0x100);
    lemma_digit(v as nat, 4, 3, 1);
    assert(v.tls_encoding() =~= seq![
        (v / 0x100_0000) as u8,
        ((v / 0x1_0000) % 0x100) as u8,
        ((v / 0x100) % 0x100) as u8,
        (v % 0x100) as u8,
    ]);
    lemma_be_value_prefix(bytes);
}

/// A `u64` encodes as its eight base-256 digits, most significant first, and
/// decodes from the first eight bytes of an input.
pub proof fn lemma_u64_format(v: u64, bytes: Seq<u8>)
    ensures
        v.tls_encoding() == seq![
            (v / 0x100_0000_0000_0000) as u8,
            ((v / 0x1_0000_0000_0000) % 0x100) as u8,
            ((v / 0x100_0000_0000) % 0x100) as u8,
            ((v / 0x1_0000_0000) % 0x100) as u8,
            ((v / 0x100_0000) % 0x100) as u8,
            ((v / 0x1_0000) % 0x100) as u8,
            ((v / 0x100) % 0x100) as u8,
            (v % 0x100) as u8,
        ],
        v.tls_encoding_error() is None,
        bytes.len() >= 8 ==> <u64 as WireDecoding>::tls_decoding(bytes) == Ok::<
            (u64, nat),
            ErrorView,
        >(
            (
                (bytes[0] * 0x100_0000_0000_0000 + bytes[1] * 0x1_0000_0000_0000 + bytes[2]
                    * 0x100_0000_0000 + bytes[3] * 0x1_0000_0000 + bytes[4] * 0x100_0000
                    + bytes[5] * 0x1_0000 + bytes[6] * 0x100 + bytes[7]) as u64,
                8,
            ),
        ),
        bytes.len() < 8 ==> <u64 as WireDecoding>::tls_decoding(bytes) == Err::<
            (u64, nat),
            ErrorView,
        >(ErrorView::EndOfStream),
{
    reveal_with_fuel(byte_range, 9);
    assert((v / 0x100_0000_0000_0000) % 0x100 == v / 0x100_0000_0000_0000);
    lemma_digit(v as nat, 8, 0, 0x100_0000_0000_0000);
    lemma_digit(v as nat, 8, 1, 0x1_0000_0000_0000);
    lemma_digit(v as nat, 8, 2, 0x100_0000_0000);
    lemma_digit(v as nat, 8, 3, 0x1_0000_0000);
    lemma_digit(v as nat, 8, 4, 0x100_0000);
    lemma_digit(v as nat, 8, 5, 0x1_0000);
    lemma_digit(v as nat, 8, 6, 0x100);
    lemma_digit(v as nat, 8, 7, 1);
    assert(v.tls_encoding() =~= seq![
        (v / 0x100_0000_0000_0000) as u8,
        ((v / 0x1_0000_0000_0000) % 0x100) as u8,
        ((v / 0x100_0000_0000) % 0x100) as u8,
        ((v / 0x1_0000_0000) % 0x100) as u8,
        ((v / 0x100_0000) % 0x100) as u8,
        ((v / 0x1_0000) % 0x100) as u8,
        ((v / 0x100) % 0x100) as u8,
        (v % 0x100) as u8,
    ]);
    lemma_be_value_prefix(bytes);
}

/// A `U24` encodes as its three bytes as they are (what `to_be_bytes`
/// gives), which hold its value most significant first; it decodes as the
/// first three bytes of an input, as they are.
pub proof fn lemma_u24_format(v: U24, bytes: Seq<u8>)
    ensures
        v.tls_encoding() == v@,
        v@.len() == 3,
        v.value() == v@[0] * 0x1_0000 + v@[1] * 0x100 + v@[2],
        v.tls_encoding_error() is None,
        bytes.len() >= 3 ==> (<U24 as WireDecoding>::tls_decoding(bytes) matches Ok((x, n)) && n
            == 3 && x@ == bytes.take(3)),
        bytes.len() < 3 ==> <U24 as WireDecoding>::tls_decoding(bytes) == Err::<
            (U24, nat),
            ErrorView,
        >(ErrorView::EndOfStream),
{
    v.lemma_view();
    lemma_be_value_prefix(v@);
    assert(v@.take(3) =~= v@);
    if bytes.len() >= 3 {
        U24::lemma_from_seq(bytes.take(3), v);
    }
}

/// `None` encodes as the byte 0; `Some(x)` as the byte 1 and then the
/// encoding of `x`, and can be encoded exactly when `x` can. Decoding reads
/// a presence byte: 0 gives `None` after one byte, 1 gives `Some` of what
/// follows (or the error of what follows), any other byte is refused.
pub proof fn lemma_option_format<T: WireDecoding>(v: Option<T>, bytes: Seq<u8>)
    ensures
        v is None ==> v.tls_encoding() == seq![0u8] && v.tls_encoding_error() is None,
        v matches Some(x) ==> v.tls_encoding() == seq![1u8] + x.tls_encoding()
            && v.tls_encoding_error() == x.tls_encoding_error(),
        bytes.len() == 0 ==> Option::<T>::tls_decoding(bytes) == Err::<(Option<T>, nat), ErrorView>(
            ErrorView::EndOfStream,
        ),
        bytes.len() > 0 && bytes[0] == 0 ==> Option::<T>::tls_decoding(bytes) == Ok::<
            (Option<T>, nat),
            ErrorView,
        >((None, 1)),
        bytes.len() > 0 && bytes[0] == 1 ==> (T::tls_decoding(bytes.skip(1)) matches Ok((x, n))
            ==> Option::<T>::tls_decoding(bytes) == Ok::<(Option<T>, nat), ErrorView>(
            (Some(x), n + 1),
        )),
        bytes.len() > 0 && bytes[0] == 1 ==> (T::tls_decoding(bytes.skip(1)) matches Err(e)
            ==> Option::<T>::tls_decoding(bytes) == Err::<(Option<T>, nat), ErrorView>(e)),
        bytes.len() > 0 && bytes[0] > 1 ==> Option::<T>::tls_decoding(bytes) == Err::<
            (Option<T>, nat),
            ErrorView,
        >(ErrorView::DecodingError(option_tag_text(bytes[0]))),
{
}

/// A pair encodes as its first component's encoding then its second's, and
/// can be encoded exactly when both can (else the first failure is the
/// error). Decoding reads the first component, then the second from what
/// is left, and takes both encodings.
pub proof fn lemma_pair_format<T: WireDecoding, U: WireDecoding>(v: (T, U), bytes: Seq<u8>)
    ensures
        v.tls_encoding() == v.0.tls_encoding() + v.1.tls_encoding(),
        v.0.tls_encoding_error() is Some ==> v.tls_encoding_error() == v.0.tls_encoding_error(),
        v.0.tls_encoding_error() is None ==> v.tls_encoding_error() == v.1.tls_encoding_error(),
        T::tls_decoding(bytes) matches Err(e) ==> <(T, U)>::tls_decoding(bytes) == Err::<
            ((T, U), nat),
            ErrorView,
        >(e),
        T::tls_decoding(bytes) matches Ok((a, n)) ==> (U::tls_decoding(bytes.skip(n as int))
            matches Ok((b, m)) ==> <(T, U)>::tls_decoding(bytes) == Ok::<((T, U), nat), ErrorView>(
            ((a, b), n + m),
        )),
        T::tls_decoding(bytes) matches Ok((a, n)) ==> (U::tls_decoding(bytes.skip(n as int))
            matches Err(e) ==> <(T, U)>::tls_decoding(bytes) == Err::<((T, U), nat), ErrorView>(
            e,
        )),
{
}

/// A triple encodes as its three components' encodings one after the other,
/// and can be encoded exactly when all three can (else the first failure is
/// the error). Decoding reads the components in order, each from what the
/// one before left, and takes all three encodings.
pub proof fn lemma_triple_format<T: WireDecoding, U: WireDecoding, V: WireDecoding>(
    v: (T, U, V),
    bytes: Seq<u8>,
)
    ensures
        v.tls_encoding() == v.0.tls_encoding() + v.1.tls_encoding() + v.2.tls_encoding(),
        v.0.tls_encoding_error() is Some ==> v.tls_encoding_error() == v.0.tls_encoding_error(),
        v.0.tls_encoding_error() is None && v.1.tls_encoding_error() is Some
            ==> v.tls_encoding_error() == v.1.tls_encoding_error(),
        v.0.tls_encoding_error() is None && v.1.tls_encoding_error() is None
            ==> v.tls_encoding_error() == v.2.tls_encoding_error(),
        T::tls_decoding(bytes) matches Err(e) ==> <(T, U, V)>::tls_decoding(bytes) == Err::<
            ((T, U, V), nat),
            ErrorView,
        >(e),
        T::tls_decoding(bytes) matches Ok((a, n)) ==> (U::tls_decoding(bytes.skip(n as int))
            matches Err(e) ==> <(T, U, V)>::tls_decoding(bytes) == Err::<
            ((T, U, V), nat),
            ErrorView,
        >(e)),
        T::tls_decoding(bytes) matches Ok((a, n)) ==> (U::tls_decoding(bytes.skip(n as int))
            matches Ok((b, m)) ==> (V::tls_decoding(bytes.skip(n + m as int)) matches Ok((c, k))
            ==> <(T, U, V)>::tls_decoding(bytes) == Ok::<((T, U, V), nat), ErrorView>(
            ((a, b, c), n + m + k),
        ))),
        T::tls_decoding(bytes) matches Ok((a, n)) ==> (U::tls_decoding(bytes.skip(n as int))
            matches Ok((b, m)) ==> (V::tls_decoding(bytes.skip(n + m as int)) matches Err(e)
            ==> <(T, U, V)>::tls_decoding(bytes) == Err::<((T, U, V), nat), ErrorView>(e))),
{
}

/// A box encodes, fails and decodes exactly as its contents do.
pub proof fn lemma_box_format<T: WireDecoding>(v: Box<T>, bytes: Seq<u8>)
    ensures
        v.tls_encoding() == (*v).tls_encoding(),
        v.tls_encoding_error() == (*v).tls_encoding_error(),
        v.tls_written_on_error() == (*v).tls_written_on_error(),
        T::tls_decoding(bytes) matches Ok((x, n)) ==> Box::<T>::tls_decoding(bytes) == Ok::<
            (Box<T>, nat),
            ErrorView,
        >((Box::new(x), n)),
        T::tls_decoding(bytes) matches Err(e) ==> Box::<T>::tls_decoding(bytes) == Err::<
            (Box<T>, nat),
            ErrorView,
        >(e),
{
}

/// `()` and `PhantomData` take no bytes, can always be encoded, and decode
/// from any input without taking anything.
pub proof fn lemma_empty_formats<T>(u: (), p: PhantomData<T>, bytes: Seq<u8>)
    ensures
        u.tls_encoding() == Seq::<u8>::empty(),
        u.tls_encoding_error() is None,
        <()>::tls_decoding(bytes) == Ok::<((), nat), ErrorView>(((), 0)),
        p.tls_encoding() == Seq::<u8>::empty(),
        p.tls_encoding_error() is None,
        PhantomData::<T>::tls_decoding(bytes) == Ok::<(PhantomData<T>, nat), ErrorView>(
            (PhantomData, 0),
        ),
{
}

} // verus!
