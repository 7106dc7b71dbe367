//! Conditioning and assessment of raw random bits.
//!
//! A bit sequence is a slice of `u8` whose elements are 0 or 1, in the order
//! in which the bits arrived. The modules below pack such sequences into
//! bytes, remove first-order bias, whiten with SHA3-256, count what a quality
//! report is built from, and run the stages in their fixed order.

pub mod assess;
pub mod codec;
pub mod debias;
pub mod pipeline;
pub mod source;
pub mod whiten;

pub use assess::quick_randomness_test;
pub use codec::{bits_to_bytes, bytes_to_bits};
pub use debias::von_neumann_debias;
pub use pipeline::process_bits;
pub use whiten::hash_randomness;
