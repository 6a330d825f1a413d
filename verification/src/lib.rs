//! A verified core for rendering Newton fractals.
//!
//! Every pixel of a raster stands for a point of the complex plane. Newton's
//! iteration is started there, the root it settles on is sorted into a
//! registry of clusters, and the cluster's id picks the pixel's colour.

pub mod cluster;
pub mod newton;
pub mod point;
pub mod raster;
pub mod render;
pub mod viz;
