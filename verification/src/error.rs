//! Error types.

use vstd::prelude::*;

use crate::text;

verus! {

/// Why an in-place update of a dynamic image failed.
#[derive(Debug, Clone, PartialEq, Eq, Structural)]
pub enum DynamicImageError {
    /// The image has no bytes in memory.
    MissingData,
    /// The image is static.
    NotDynamic,
    /// The new bytes are not as many as the image's buffer holds.
    SizeMismatch { expected: usize, actual: usize },
}

impl DynamicImageError {
    /// The text that [`DynamicImageError::message`] returns.
    pub open spec fn text(self) -> Seq<char> {
        match self {
            DynamicImageError::MissingData => "image has no resident CPU data"@,
            DynamicImageError::NotDynamic => "image was not created with Image::new_dynamic"@,
            DynamicImageError::SizeMismatch { expected, actual } =>
                "image byte length mismatch: expected "@ + text::decimal(expected as nat)
                    + ", got "@ + text::decimal(actual as nat),
        }
    }

    /// The error as a message for people.
    pub fn message(&self) -> (r: String)
        ensures
            r@ == self.text(),
            match self {
                DynamicImageError::MissingData => r@ == "image has no resident CPU data"@,
                DynamicImageError::NotDynamic => r@
                    == "image was not created with Image::new_dynamic"@,
                DynamicImageError::SizeMismatch { expected, actual } => r@
                    == "image byte length mismatch: expected "@ + text::decimal(*expected as nat)
                    + ", got "@ + text::decimal(*actual as nat),
            },
    {
        match self {
            Self::MissingData => "image has no resident CPU data".to_owned(),
            Self::NotDynamic => "image was not created with Image::new_dynamic".to_owned(),
            Self::SizeMismatch { expected, actual } => {
                let expected_text = text::decimal_text(*expected);
                let actual_text = text::decimal_text(*actual);
                let start = "image byte length mismatch: expected ".to_owned();
                start.concat(expected_text.as_str()).concat(", got ").concat(actual_text.as_str())
            },
        }
    }
}

/// Failure to load an asset.
#[derive(Debug)]
pub enum AssetError {
    /// The asset's bytes are malformed or of an unsupported kind.
    Format(String),
}

/// Any failure of the library's loaders.
#[derive(Debug)]
pub enum Error {
    Asset(AssetError),
}

impl Error {
    /// The message inside the error.
    pub open spec fn text(self) -> Seq<char> {
        match self {
            Error::Asset(AssetError::Format(message)) => message@,
        }
    }
}

/// The text of a loader's error is its message.
pub proof fn law_error_text_is_its_message(message: String)
    ensures
        Error::Asset(AssetError::Format(message)).text() == message@,
{
}

} // verus!
