//! Buddhabrot density images: orbit sampling decisions, the collector that
//! bins escaping orbits into three color histograms, and the plain PPM and
//! PNG encodings of those histograms.

pub mod buddha;
pub mod collector;
pub mod netpbm;
pub mod orbit;
pub mod ppm;
pub mod ppm_read;
pub mod raster;
