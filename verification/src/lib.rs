//! Maps grids of scalar samples onto RGB rasters by rescaling each sample's
//! value range onto the index range of a caller-supplied colormap.

pub mod affine;
pub mod extrema;
pub mod image;
pub mod numeric;
