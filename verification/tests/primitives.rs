use std::marker::PhantomData;

use tls_codec::{
    Deserialize, DeserializeBytes, DeserializeExact, Error, Serialize, SerializeBytes,
    SerializeDetached, Size, SizeChecked, U24,
};

fn to_bytes<T: SerializeBytes>(v: &T) -> Vec<u8> {
    <T as SerializeBytes>::tls_serialize(v).unwrap()
}

fn to_writer<T: Serialize>(v: &T, writer: &mut Vec<u8>) -> Result<usize, Error> {
    <T as Serialize>::tls_serialize(v, writer)
}

#[test]
fn integers_encode_in_network_byte_order() {
    assert_eq!(to_bytes(&0xabu8), vec![0xab]);
    assert_eq!(to_bytes(&0x1234u16), vec![0x12, 0x34]);
    assert_eq!(to_bytes(&0x0102_0304u32), vec![1, 2, 3, 4]);
    assert_eq!(
        to_bytes(&0x0102_0304_0506_0708u64),
        vec![1, 2, 3, 4, 5, 6, 7, 8]
    );
    assert_eq!(to_bytes(&U24::from_be_bytes([9, 8, 7])), vec![9, 8, 7]);
    assert_eq!(to_bytes(&u64::MAX), vec![0xff; 8]);
    assert_eq!(to_bytes(&0u32), vec![0; 4]);
}

#[test]
fn references_encode_as_their_values() {
    let x = 0x1234u16;
    assert_eq!(<&u16 as SerializeBytes>::tls_serialize(&&x).unwrap(), vec![0x12, 0x34]);
    assert_eq!((&x).tls_serialized_len(), 2);
    let o = Some(5u8);
    assert_eq!(<&Option<u8> as SerializeBytes>::tls_serialize(&&o).unwrap(), vec![1, 5]);
    let mut w = Vec::new();
    assert_eq!(to_writer(&&o, &mut w), Ok(2));
    assert_eq!(w, vec![1, 5]);
}

#[test]
fn integer_lengths() {
    assert_eq!(7u8.tls_serialized_len(), 1);
    assert_eq!(7u16.tls_serialized_len(), 2);
    assert_eq!(U24::default().tls_serialized_len(), 3);
    assert_eq!(7u32.tls_serialized_len(), 4);
    assert_eq!(7u64.tls_serialized_len(), 8);
    assert_eq!(7u8.tls_serialized_len_checked(), Some(1));
    assert_eq!(7u16.tls_serialized_len_checked(), Some(2));
    assert_eq!(U24::default().tls_serialized_len_checked(), Some(3));
    assert_eq!(7u32.tls_serialized_len_checked(), Some(4));
    assert_eq!(7u64.tls_serialized_len_checked(), Some(8));
}

#[test]
fn writer_appends_and_counts() {
    let mut w = vec![0xee];
    assert_eq!(to_writer(&0x0102u16, &mut w), Ok(2));
    assert_eq!(to_writer(&0x03u8, &mut w), Ok(1));
    assert_eq!(to_writer(&U24::from_be_bytes([4, 5, 6]), &mut w), Ok(3));
    assert_eq!(to_writer(&7u32, &mut w), Ok(4));
    assert_eq!(to_writer(&8u64, &mut w), Ok(8));
    assert_eq!(
        w,
        vec![0xee, 1, 2, 3, 4, 5, 6, 0, 0, 0, 7, 0, 0, 0, 0, 0, 0, 0, 8]
    );
}

#[test]
fn integers_decode_and_hand_back_the_rest() {
    let input = [0x12u8, 0x34, 0x56, 0x78, 0x9a];
    assert_eq!(u8::tls_deserialize_bytes(&input).unwrap(), (0x12, &input[1..]));
    assert_eq!(u16::tls_deserialize_bytes(&input).unwrap(), (0x1234, &input[2..]));
    assert_eq!(
        U24::tls_deserialize_bytes(&input).unwrap(),
        (U24::from_be_bytes([0x12, 0x34, 0x56]), &input[3..])
    );
    assert_eq!(u32::tls_deserialize_bytes(&input).unwrap(), (0x1234_5678, &input[4..]));
    let long = [1u8, 2, 3, 4, 5, 6, 7, 8, 9];
    assert_eq!(
        u64::tls_deserialize_bytes(&long).unwrap(),
        (0x0102_0304_0506_0708, &long[8..])
    );
}

#[test]
fn short_input_is_end_of_stream() {
    assert_eq!(u8::tls_deserialize_bytes(&[]), Err(Error::EndOfStream));
    assert_eq!(u16::tls_deserialize_bytes(&[1]), Err(Error::EndOfStream));
    assert_eq!(U24::tls_deserialize_bytes(&[1, 2]), Err(Error::EndOfStream));
    assert_eq!(u32::tls_deserialize_bytes(&[1, 2, 3]), Err(Error::EndOfStream));
    assert_eq!(u64::tls_deserialize_bytes(&[1, 2, 3, 4, 5, 6, 7]), Err(Error::EndOfStream));
    let mut reader: &[u8] = &[1, 2, 3];
    assert_eq!(u32::tls_deserialize(&mut reader), Err(Error::EndOfStream));
}

#[test]
fn reader_moves_past_what_it_decodes() {
    let input = [0u8, 1, 2, 3, 4, 5, 6, 7, 8, 9, 10, 11, 12, 13, 14, 15, 16, 17];
    let mut reader: &[u8] = &input;
    assert_eq!(u8::tls_deserialize(&mut reader), Ok(0));
    assert_eq!(u16::tls_deserialize(&mut reader), Ok(0x0102));
    assert_eq!(U24::tls_deserialize(&mut reader), Ok(U24::from_be_bytes([3, 4, 5])));
    assert_eq!(u32::tls_deserialize(&mut reader), Ok(0x0607_0809));
    assert_eq!(u64::tls_deserialize(&mut reader), Ok(0x0a0b_0c0d_0e0f_1011));
    assert_eq!(reader, &[]);
}

#[test]
fn option_encoding() {
    assert_eq!(to_bytes(&Some(0x0203u16)), vec![1, 2, 3]);
    assert_eq!(to_bytes(&None::<u16>), vec![0]);
    assert_eq!(Some(0x0203u16).tls_serialized_len(), 3);
    assert_eq!(None::<u16>.tls_serialized_len(), 1);
    assert_eq!(Some(5u32).tls_serialized_len_checked(), Some(5));
    assert_eq!(None::<u32>.tls_serialized_len_checked(), Some(1));
    let mut w = Vec::new();
    assert_eq!(to_writer(&Some(7u8), &mut w), Ok(2));
    assert_eq!(to_writer(&None::<u8>, &mut w), Ok(1));
    assert_eq!(w, vec![1, 7, 0]);
}

#[test]
fn option_decoding() {
    let input = [1u8, 0xaa, 0xbb, 0xcc];
    assert_eq!(
        Option::<u16>::tls_deserialize_bytes(&input).unwrap(),
        (Some(0xaabb), &input[3..])
    );
    assert_eq!(Option::<u16>::tls_deserialize_bytes(&[0, 9]).unwrap(), (None, &[9u8][..]));
    assert_eq!(Option::<u16>::tls_deserialize_bytes(&[]), Err(Error::EndOfStream));
    assert_eq!(Option::<u16>::tls_deserialize_bytes(&[1, 5]), Err(Error::EndOfStream));
    let mut reader: &[u8] = &[1, 4, 0, 9];
    assert_eq!(Option::<u8>::tls_deserialize(&mut reader), Ok(Some(4)));
    assert_eq!(Option::<u8>::tls_deserialize(&mut reader), Ok(None));
    assert_eq!(reader, &[9]);
}

#[test]
fn option_with_a_bad_presence_byte() {
    let expected = Error::DecodingError(
        "Trying to decode Option<T> with 2 for option. It must be 0 for None and 1 for Some."
            .to_string(),
    );
    assert_eq!(Option::<u8>::tls_deserialize_bytes(&[2, 0]), Err(expected.clone()));
    let mut reader: &[u8] = &[2, 0];
    assert_eq!(Option::<u8>::tls_deserialize(&mut reader), Err(expected));
    assert_eq!(
        Option::<u8>::tls_deserialize_bytes(&[255]),
        Err(Error::DecodingError(
            "Trying to decode Option<T> with 255 for option. It must be 0 for None and 1 for Some."
                .to_string()
        ))
    );
}

#[test]
fn pairs_and_triples() {
    let pair = (0x01u8, 0x0203u16);
    assert_eq!(pair.tls_serialized_len(), 3);
    assert_eq!(pair.tls_serialized_len_checked(), Some(3));
    let mut w = Vec::new();
    assert_eq!(to_writer(&pair, &mut w), Ok(3));
    assert_eq!(w, vec![1, 2, 3]);
    let input = [1u8, 2, 3, 4];
    assert_eq!(
        <(u8, u16)>::tls_deserialize_bytes(&input).unwrap(),
        ((1, 0x0203), &input[3..])
    );
    let mut reader: &[u8] = &input;
    assert_eq!(<(u8, u16)>::tls_deserialize(&mut reader), Ok((1, 0x0203)));
    assert_eq!(reader, &[4]);

    let triple = (1u8, Some(2u8), 0x0304_0506u32);
    assert_eq!(triple.tls_serialized_len(), 7);
    assert_eq!(triple.tls_serialized_len_checked(), Some(7));
    let mut w = Vec::new();
    assert_eq!(to_writer(&triple, &mut w), Ok(7));
    assert_eq!(w, vec![1, 1, 2, 3, 4, 5, 6]);
    assert_eq!(
        <(u8, Option<u8>, u32)>::tls_deserialize_bytes(&w).unwrap(),
        (triple, &[][..])
    );
    let mut reader: &[u8] = &w;
    assert_eq!(<(u8, Option<u8>, u32)>::tls_deserialize(&mut reader), Ok(triple));
    assert_eq!(<(u8, u16, u8)>::tls_deserialize_bytes(&[1, 2, 3]), Err(Error::EndOfStream));
    assert_eq!(<(u8, u16)>::tls_deserialize_bytes(&[1, 2]), Err(Error::EndOfStream));
}

#[test]
fn values_without_bytes() {
    assert_eq!(().tls_serialized_len(), 0);
    assert_eq!(().tls_serialized_len_checked(), Some(0));
    let mut w = vec![3];
    assert_eq!(to_writer(&(), &mut w), Ok(0));
    assert_eq!(w, vec![3]);
    assert_eq!(<()>::tls_deserialize_bytes(&[1, 2]).unwrap(), ((), &[1u8, 2][..]));
    let mut reader: &[u8] = &[1];
    assert_eq!(<()>::tls_deserialize(&mut reader), Ok(()));
    assert_eq!(reader, &[1]);

    let p: PhantomData<u32> = PhantomData;
    assert_eq!(p.tls_serialized_len(), 0);
    assert_eq!(p.tls_serialized_len_checked(), Some(0));
    assert_eq!(to_bytes(&p), Vec::<u8>::new());
    assert_eq!(to_writer(&p, &mut w), Ok(0));
    assert_eq!(w, vec![3]);
    assert_eq!(
        PhantomData::<u32>::tls_deserialize_bytes(&[5]).unwrap(),
        (PhantomData, &[5u8][..])
    );
    let mut reader: &[u8] = &[5];
    assert_eq!(PhantomData::<u32>::tls_deserialize(&mut reader), Ok(PhantomData));
    assert_eq!(reader, &[5]);
}

#[test]
fn boxes_encode_as_their_contents() {
    let b = Box::new(0x0102u16);
    assert_eq!(b.tls_serialized_len(), 2);
    assert_eq!(b.tls_serialized_len_checked(), Some(2));
    assert_eq!(to_bytes(&b), vec![1, 2]);
    let mut w = Vec::new();
    assert_eq!(to_writer(&b, &mut w), Ok(2));
    assert_eq!(w, vec![1, 2]);
    assert_eq!(
        Box::<u16>::tls_deserialize_bytes(&[1, 2, 3]).unwrap(),
        (Box::new(0x0102), &[3u8][..])
    );
    let mut reader: &[u8] = &[1, 2];
    assert_eq!(Box::<u16>::tls_deserialize(&mut reader), Ok(Box::new(0x0102)));
    assert_eq!(Box::<u16>::tls_deserialize_bytes(&[1]), Err(Error::EndOfStream));
}

#[test]
fn detached_and_exact() {
    let v = (Some(0x0a0bu16), U24::from_be_bytes([1, 2, 3]));
    let bytes = v.tls_serialize_detached().unwrap();
    assert_eq!(bytes, vec![1, 0x0a, 0x0b, 1, 2, 3]);
    assert_eq!(<(Option<u16>, U24)>::tls_deserialize_exact(&bytes), Ok(v));
    let mut longer = bytes.clone();
    longer.push(0);
    assert_eq!(<(Option<u16>, U24)>::tls_deserialize_exact(&longer), Err(Error::TrailingData));
    assert_eq!(
        <(Option<u16>, U24)>::tls_deserialize_exact(&bytes[..5]),
        Err(Error::EndOfStream)
    );
    assert_eq!(u8::tls_deserialize_exact(&[]), Err(Error::EndOfStream));
    assert_eq!(None::<u64>.tls_serialize_detached(), Ok(vec![0]));
}

#[test]
fn u24_bytes() {
    let x = U24::from_be_bytes([0xff, 0x00, 0x01]);
    assert_eq!(x.to_be_bytes(), [0xff, 0x00, 0x01]);
    assert_eq!(U24::default().to_be_bytes(), [0, 0, 0]);
}

#[test]
fn slice_length_errors_are_invalid_input() {
    let err = <[u8; 2]>::try_from(&[1u8][..]).unwrap_err();
    assert_eq!(Error::from(err), Error::InvalidInput);
}

#[test]
fn decoding_undoes_encoding() {
    let values: Vec<(u8, Option<u32>, u16)> = vec![
        (0, None, 0),
        (255, Some(u32::MAX), 0xffff),
        (7, Some(0), 0x0100),
    ];
    for v in values {
        let bytes = v.tls_serialize_detached().unwrap();
        assert_eq!(bytes.len(), v.tls_serialized_len());
        assert_eq!(<(u8, Option<u32>, u16)>::tls_deserialize_exact(&bytes), Ok(v));
        let mut with_tail = bytes.clone();
        with_tail.extend_from_slice(&[9, 9]);
        assert_eq!(
            <(u8, Option<u32>, u16)>::tls_deserialize_bytes(&with_tail).unwrap(),
            (v, &[9u8, 9][..])
        );
    }
}

#[test]
fn decoded_values_encode_to_their_input() {
    let input = [1u8, 0x12, 0x34, 0x56, 0x78];
    let (v, rest) = Option::<u32>::tls_deserialize_bytes(&input).unwrap();
    assert!(rest.is_empty());
    assert_eq!(to_bytes(&v), input.to_vec());
}

#[test]
fn decoding_errors_leave_the_reader_where_decoding_stopped() {
    let mut reader: &[u8] = &[2, 5, 6];
    assert!(Option::<u8>::tls_deserialize(&mut reader).is_err());
    assert_eq!(reader, &[5, 6]);

    let mut reader: &[u8] = &[1, 5, 6];
    assert_eq!(Option::<u32>::tls_deserialize(&mut reader), Err(Error::EndOfStream));
    assert_eq!(reader, &[]);

    let mut reader: &[u8] = &[];
    assert_eq!(Option::<u8>::tls_deserialize(&mut reader), Err(Error::EndOfStream));

    let mut reader: &[u8] = &[1, 2, 3, 2, 4];
    assert!(<(u16, u8, Option<u8>)>::tls_deserialize(&mut reader).is_err());
    assert_eq!(reader, &[4]);
}
