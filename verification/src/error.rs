use vstd::prelude::*;

verus! {

/// Everything that can go wrong while a document is inspected or converted.
#[derive(Debug, Clone, Copy, PartialEq, Eq, Structural)]
pub enum PDF2ImageError {
    /// The tool is missing or could not be started.
    SpawnFailure,
    /// Writing the document to the tool, or reading its output, failed.
    IoFailure,
    /// The info report has no usable `Pages:` line.
    UnableToExtractPageCount,
    /// The info report has no usable `Encrypted:` line.
    UnableToExtractEncryptionStatus,
    /// The document is encrypted and the options carry no password.
    NoPasswordForEncryptedPDF,
    /// The bytes a rendering tool produced are not a valid image.
    DecodeFailure,
    /// The options contradict each other.
    InvalidConfiguration,
}

impl From<image::ImageError> for PDF2ImageError {
    /// Whatever the decoder objects to, the page is not a valid image.
    fn from(error: image::ImageError) -> (res: Self) {
        PDF2ImageError::DecodeFailure
    }
}

impl vstd::std_specs::convert::FromSpecImpl<image::ImageError> for PDF2ImageError {
    open spec fn obeys_from_spec() -> bool {
        true
    }

    open spec fn from_spec(error: image::ImageError) -> Self {
        PDF2ImageError::DecodeFailure
    }
}

} // verus!
