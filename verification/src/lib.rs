//! Decoders for the raw output of Doppler lidars and wind profilers.
//!
//! Every decoder takes the bytes of one file and gives back a typed record.
//! Numbers stay in the decimal notation in which the instrument wrote them, so
//! that nothing is rounded before the caller chooses a number type.
pub mod download;
pub mod group;
pub mod raw;
pub mod testfile;
