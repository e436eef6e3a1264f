//! What can go wrong between a Zarr store and a tile.

use vstd::prelude::*;

verus! {

/// An error of the `chrono` crate: why a text is no date.
#[verifier::external_type_specification]
#[verifier::external_body]
pub struct ExParseError(chrono::ParseError);

/// An error of the `image` crate: why an image was not encoded.
#[verifier::external_type_specification]
#[verifier::external_body]
pub struct ExImageError(image::ImageError);

/// Errors that can occur when working with Zarr stores.
#[non_exhaustive]
#[derive(Debug)]
pub enum ZarrError {
    /// An attribute is missing, or does not hold what it should.
    AttributeError(String),
    /// A text is no date.
    ParseError(chrono::ParseError),
    /// The time dimension cannot be read.
    TimeError(String),
    /// The dimensions of an array are not those of a tile source.
    DimensionError(String),
    /// A number does not fit its type.
    CastError(String),
    /// An image was not encoded.
    ImageError(image::ImageError),
}

impl ZarrError {
    /// An attribute error with this text.
    pub open spec fn is_attribute_error(self, text: Seq<char>) -> bool {
        self matches ZarrError::AttributeError(t) && t@ == text
    }

    /// A time error with this text.
    pub open spec fn is_time_error(self, text: Seq<char>) -> bool {
        self matches ZarrError::TimeError(t) && t@ == text
    }

    /// A dimension error with this text.
    pub open spec fn is_dimension_error(self, text: Seq<char>) -> bool {
        self matches ZarrError::DimensionError(t) && t@ == text
    }

    /// A cast error with this text.
    pub open spec fn is_cast_error(self, text: Seq<char>) -> bool {
        self matches ZarrError::CastError(t) && t@ == text
    }
}

} // verus!
