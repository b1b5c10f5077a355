//! Encoding and decoding of CITP packets of the PINF (peer information) layer.

pub mod codec;
pub mod citp;
pub mod pinf;
pub mod laws;
