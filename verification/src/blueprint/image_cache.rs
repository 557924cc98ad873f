//! What is loaded into a run's image cache: decoded assets, or the reason
//! why an asset could not be loaded.

use vstd::prelude::*;
use vstd::string::*;

use crate::blueprint::imaging::{decode_image, decoded_size, error_text};
use crate::blueprint::raster::Raster;

verus! {

/// The number of decoded assets that a run's cache keeps at most.
pub const POOL_SIZE: usize = 20;

/// Why an asset could not be loaded.
#[derive(Debug, Clone)]
pub struct CacheError {
    message: String,
}

impl CacheError {
    /// The words of the error.
    pub closed spec fn text(&self) -> Seq<char> {
        self.message@
    }

    /// An error with these words.
    pub fn new(message: &str) -> (error: CacheError)
        ensures
            error.text() == message@,
    {
        CacheError { message: String::from_str(message) }
    }

    /// The words of the error.
    pub fn message(&self) -> (message: &str)
        ensures
            message@ == self.text(),
    {
        self.message.as_str()
    }
}

/// Decodes the bytes of an asset: the format is guessed from the bytes, and
/// the image comes as RGBA with eight bits a channel. It loads exactly
/// where the decoders read the bytes, and has the size that they read.
/// Bytes that the decoders refuse give the decoder's words as the error.
pub fn load_image(content: &Vec<u8>) -> (loaded: Result<Raster, CacheError>)
    ensures
        match loaded {
            Ok(raster) => raster.wf() && decoded_size(content@) == Some(
                (raster@.width, raster@.height),
            ),
            Err(_) => decoded_size(content@) is None,
        },
{
    match decode_image(content) {
        Ok(raster) => Ok(raster),
        Err(error) => Err(CacheError { message: error_text(&error) }),
    }
}

} // verus!
