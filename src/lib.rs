//! Ocean-colour processing: the band mapping of ocean-colour sensors, the
//! subsetting of optical coefficient tables, the discrete side of the
//! quasi-analytical inversion, the layout of the irradiance lookup table, and
//! the configuration and raster kinds of the batch pipeline.
use vstd::prelude::*;

pub mod config;
pub mod dates;
pub mod datasets;
pub mod lut;
pub mod optics;
pub mod qaa;
pub mod readers;
pub mod region;
pub mod sat_bands;
pub mod text;

verus! {

} // verus!
