//! Point-containment queries against a fixed three-dimensional structure,
//! the two-dimensional buffer zone around it, and raster grids of both.

pub mod geometry;
pub mod footprint;
pub mod images;
pub mod perimeter;
pub mod raster;
