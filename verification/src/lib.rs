//! Representation and wire encoding of an identity claim set.
//!
//! A claim set is the collection of attributes an identity provider asserts
//! about a subject (name, contact information, address, timestamps). On the
//! wire it is a single flat map of string keys, where a key is either a plain
//! field name or `field#language-tag` for one localized variant of a
//! localizable field. The heart of the crate is the codec between that flat
//! map and the assembled [`claims::StandardClaims`] entity, with strict
//! duplicate detection and round-trip guarantees.

pub mod address;
pub mod claims;
pub mod codec;
pub mod error;
pub mod helpers;
pub mod localized;
pub mod value;

pub use address::AddressClaim;
pub use claims::AdditionalClaims;
pub use claims::EmptyAdditionalClaims;
pub use claims::GenderClaim;
pub use claims::RawAdditionalClaims;
pub use claims::StandardClaims;
pub use claims::StrictAdditionalClaims;
pub use claims::TextGenderClaim;
pub use error::ClaimError;
pub use localized::LocalizedClaim;
pub use value::ClaimValue;
