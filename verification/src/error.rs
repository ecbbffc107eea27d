//! Errors that an asset load can end with.
use std::io;
use std::sync::Arc;
use vstd::prelude::*;
use crate::typeid::share_arc;

verus! {

/// Makes `std::io::Error` usable in fields; its contents stay opaque.
#[verifier::external_type_specification]
#[verifier::external_body]
pub struct ExIoError(io::Error);

/// Makes `image::ImageError` usable in fields; its contents stay opaque.
#[verifier::external_type_specification]
#[verifier::external_body]
pub struct ExImageError(image::ImageError);

/// Why loading an asset failed.
#[derive(Debug)]
pub enum AssetError {
    IoError(Arc<io::Error>),
    /// The image decoder returned an error while decoding pixel data.
    ImageError(Arc<image::ImageError>),
    /// A generic, asset-specific loading failure with a human-readable cause.
    LoadingError(String),
}

impl Clone for AssetError {
    fn clone(&self) -> (r: Self)
        ensures
            r == *self,
    {
        match self {
            AssetError::IoError(e) => AssetError::IoError(share_arc(e)),
            AssetError::ImageError(e) => AssetError::ImageError(share_arc(e)),
            AssetError::LoadingError(msg) => AssetError::LoadingError(msg.clone()),
        }
    }
}

impl From<io::Error> for AssetError {
    fn from(value: io::Error) -> (r: Self) {
        AssetError::IoError(Arc::new(value))
    }
}

impl vstd::std_specs::convert::FromSpecImpl<io::Error> for AssetError {
    open spec fn obeys_from_spec() -> bool {
        true
    }

    open spec fn from_spec(v: io::Error) -> Self {
        AssetError::IoError(Arc::new(v))
    }
}

impl From<image::ImageError> for AssetError {
    fn from(value: image::ImageError) -> (r: Self) {
        AssetError::ImageError(Arc::new(value))
    }
}

impl vstd::std_specs::convert::FromSpecImpl<image::ImageError> for AssetError {
    open spec fn obeys_from_spec() -> bool {
        true
    }

    open spec fn from_spec(v: image::ImageError) -> Self {
        AssetError::ImageError(Arc::new(v))
    }
}

} // verus!
