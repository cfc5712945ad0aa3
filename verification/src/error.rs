//! The errors of encoding and decoding, and their model in specifications.
use vstd::prelude::*;
use vstd::string::StringExecFns;

verus! {

/// Everything that can go wrong while encoding or decoding.
#[derive(Debug, Clone, PartialEq, Eq)]
pub enum Error {
    /// A value could not be encoded; the text says why.
    EncodingError(String),
    /// A vector's length does not fit its length field.
    InvalidVectorLength,
    /// A writer took a different number of bytes than it was given.
    InvalidWriteLength(String),
    /// The input is not of the expected form.
    InvalidInput,
    /// The input could not be decoded; the text says why.
    DecodingError(String),
    /// The input ended before the value did.
    EndOfStream,
    /// The input goes on after the value.
    TrailingData,
    /// A value that the format does not define.
    UnknownValue(u64),
    /// The library broke one of its own assumptions.
    LibraryError,
}

/// An [`Error`] as specifications see it: its texts as sequences of characters.
pub ghost enum ErrorView {
    EncodingError(Seq<char>),
    InvalidVectorLength,
    InvalidWriteLength(Seq<char>),
    InvalidInput,
    DecodingError(Seq<char>),
    EndOfStream,
    TrailingData,
    UnknownValue(u64),
    LibraryError,
}

impl View for Error {
    type V = ErrorView;

    open spec fn view(&self) -> ErrorView {
        match self {
            Error::EncodingError(s) => ErrorView::EncodingError(s@),
            Error::InvalidVectorLength => ErrorView::InvalidVectorLength,
            Error::InvalidWriteLength(s) => ErrorView::InvalidWriteLength(s@),
            Error::InvalidInput => ErrorView::InvalidInput,
            Error::DecodingError(s) => ErrorView::DecodingError(s@),
            Error::EndOfStream => ErrorView::EndOfStream,
            Error::TrailingData => ErrorView::TrailingData,
            Error::UnknownValue(v) => ErrorView::UnknownValue(*v),
            Error::LibraryError => ErrorView::LibraryError,
        }
    }
}

/// The decimal digit `d` as a character.
pub open spec fn digit_char(d: nat) -> char {
    (48 + d) as char
}

/// `n` written in decimal, without leading zeros.
pub open spec fn decimal_digits(n: nat) -> Seq<char>
    decreases n,
{
    if n < 10 {
        seq![digit_char(n)]
    } else {
        decimal_digits(n / 10).push(digit_char(n % 10))
    }
}

/// The text of the error for an option whose presence byte is `tag`.
pub open spec fn option_tag_text(tag: u8) -> Seq<char> {
    "Trying to decode Option<T> with "@ + decimal_digits(tag as nat)
        + " for option. It must be 0 for None and 1 for Some."@
}

/// Calls `u8::to_string`, whose `Display` writes the number in decimal
/// without leading zeros; the contract claims exactly that.
#[verifier::external_body]
fn u8_to_decimal(n: u8) -> (s: String)
    ensures
        s@ == decimal_digits(n as nat),
{
    n.to_string()
}

/// The error for an option whose presence byte is `tag`, neither 0 nor 1.
pub(crate) fn option_tag_error(tag: u8) -> (e: Error)
    ensures
        e@ == ErrorView::DecodingError(option_tag_text(tag)),
{
    let mut text = String::from_str("Trying to decode Option<T> with ");
    let digits = u8_to_decimal(tag);
    text.append(digits.as_str());
    text.append(" for option. It must be 0 for None and 1 for Some.");
    Error::DecodingError(text)
}

/// Declares `core::array::TryFromSliceError`, the error of turning a slice of
/// the wrong length into an array; nothing is read from inside it.
#[verifier::external_type_specification]
#[verifier::external_body]
pub struct ExTryFromSliceError(core::array::TryFromSliceError);

impl From<core::array::TryFromSliceError> for Error {
    fn from(_err: core::array::TryFromSliceError) -> (e: Self) {
        Error::InvalidInput
    }
}

impl vstd::std_specs::convert::FromSpecImpl<core::array::TryFromSliceError> for Error {
    open spec fn obeys_from_spec() -> bool {
        true
    }

    open spec fn from_spec(v: core::array::TryFromSliceError) -> Self {
        Error::InvalidInput
    }
}

} // verus!
