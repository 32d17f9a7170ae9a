use vstd::prelude::*;

verus! {

/// `std::io::Error`, carried opaque in `MCError::Io`.
#[verifier::external_type_specification]
#[verifier::external_body]
pub struct ExIoError(std::io::Error);

/// png's `EncodingError`, carried opaque in `MCError::PngEncodingError`.
#[verifier::external_type_specification]
#[verifier::external_body]
pub struct ExPngEncodingError(png::EncodingError);

/// gif's `EncodingError`, carried opaque in `MCError::GifEncodingError`.
#[verifier::external_type_specification]
#[verifier::external_body]
pub struct ExGifEncodingError(gif::EncodingError);

/// Everything that can go wrong while reading, writing or exporting a memory card.
#[derive(Debug)]
pub enum MCError {
    /// The byte source or destination around the card failed.
    Io(std::io::Error),
    /// A product-id field is not valid UTF-8.
    Utf8Error(core::str::Utf8Error),
    /// The PNG encoder refused an icon.
    PngEncodingError(png::EncodingError),
    /// The GIF encoder refused an icon animation.
    GifEncodingError(gif::EncodingError),
    /// A frame's trailing checksum byte does not match its contents.
    BadChecksum,
    /// The input ended before a whole block could be read.
    Truncated,
}

} // verus!
