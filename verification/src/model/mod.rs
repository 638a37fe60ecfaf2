//! The register description under edit, as plain values.
//!
//! A [`Source`](rif::Source) holds every RIF that was read, with the source line of each
//! declaration, so that an edit can be written back to the lines that it touches.
pub mod page;
pub mod props;
pub mod register;
pub mod rif;
pub mod values;
