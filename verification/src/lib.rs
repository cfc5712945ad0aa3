//! Encoding and decoding of the TLS presentation language (RFC 8446,
//! section 3): unsigned integers in network byte order, optional values,
//! pairs and triples, and values that take no bytes.
//!
//! Every codec method is verified against a model of the wire format: what
//! a value encodes to, and what the front of a byte string decodes to.
pub mod be;
pub mod boxed;
pub mod codec;
pub mod detached;
pub mod error;
pub mod formats;
pub mod laws;
pub mod option;
pub mod tuple;
pub mod u24;
pub mod uint;
pub mod unit;

pub use codec::{
    Deserialize, DeserializeBytes, Serialize, SerializeBytes, Size, SizeChecked, WireDecoding,
    WireEncoding,
};
pub use detached::{DeserializeExact, SerializeDetached};
pub use error::Error;
pub use u24::U24;
