//! Converts a paired shapefile geometry stream and dBase attribute stream
//! into a GeoJSON-style feature collection.
//!
//! The crate holds the conversion core: mapping decoded shapes to geometry
//! values, normalizing dynamically typed attribute cells to plain scalars,
//! pairing the two record streams positionally, and the order-independent
//! aggregation that a concurrent dispatcher relies on. File reading, task
//! scheduling and serialization live outside, around this library.

use vstd::prelude::*;

pub mod decode;
pub mod dispatch;
pub mod feature;
pub mod geometry;
pub mod pipeline;

verus! {

/// Error carried out of the conversion core, as a plain message.
#[derive(Debug)]
pub struct CustomError(String);

impl CustomError {
    /// Wraps a message.
    pub fn new(message: String) -> (r: CustomError)
        ensures
            r@ == message@,
    {
        CustomError(message)
    }

    /// The message this error carries.
    pub fn message(&self) -> (r: &str)
        ensures
            r@ == self@,
    {
        self.0.as_str()
    }
}

impl View for CustomError {
    type V = Seq<char>;

    closed spec fn view(&self) -> Seq<char> {
        self.0@
    }
}

} // verus!
