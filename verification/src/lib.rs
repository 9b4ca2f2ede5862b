//! A schema-driven binary codec.
//!
//! Values are encoded into byte vectors under a fixed little-endian wire
//! format, and decoded back.  The [`Encodable`] and [`Decodable`] traits in
//! [`encodable`] and [`decodable`] cover the primitive shapes; the modules
//! [`attrs`], [`tags`], [`order`], [`schema`] and [`codec`] resolve a
//! declarative description of a record or tagged-union type into a concrete
//! field order and tag assignment, and interpret that resolved schema as a
//! pair of encode/decode procedures that are mutual inverses.  The [`Coder`]
//! in [`coder`] sequences several encodes and decodes over one buffer.

use vstd::prelude::*;

pub mod attrs;
pub mod codec;
pub mod coder;
pub mod decodable;
pub mod encodable;
pub mod order;
pub mod schema;
pub mod tags;
pub mod wire;

pub use coder::Coder;
pub use decodable::Decodable;
pub use decodable::Lossless;
pub use encodable::Encodable;

verus! {

} // verus!
