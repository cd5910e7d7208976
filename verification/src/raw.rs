//! The decoders, one module per file format, and what they share.
pub mod clock;
pub mod daywrap;
pub mod error;
pub mod halo_hpl;
pub mod numeral;
pub mod pattern;
pub mod profiler;
pub mod scan;
pub mod text;
pub mod wls70;
pub mod wls77;
