//! Plain data carried by marker layers.

use vstd::prelude::*;

use crate::resources::LOD_MAX_VALUE;

verus! {

/// The icon of one marker layer, as the marker data names it.
#[derive(Debug)]
pub struct LocationLayerIcon {
    pub url: String,
    pub width: u32,
    pub height: u32,
}

/// The default upper end of a marker layer's level range: the finest
/// level.
pub fn max_lod() -> (r: u32)
    ensures
        r == LOD_MAX_VALUE,
{
    LOD_MAX_VALUE
}

} // verus!
