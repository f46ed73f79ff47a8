//! Descriptions of drawable assets.  Decoding and uploading them is the host
//! renderer's work; the core only carries their descriptions and handles.

use vstd::prelude::*;

verus! {

/// Where a sprite sheet comes from.
pub enum Sprite {
    /// A sheet loaded from an image file at this path, with its description
    /// next to it.
    Path(&'static str),
}

impl Sprite {
    /// The file path behind this sprite source.
    pub fn path(&self) -> (r: &'static str)
        ensures
            self == Sprite::Path(r),
    {
        match self {
            Sprite::Path(p) => p,
        }
    }
}

} // verus!
