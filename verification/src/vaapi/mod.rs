//! VA-API: H.264 and HEVC decoding on Linux.

pub mod buffers;
pub mod decoder;
pub mod dpb;
pub mod fields;
pub mod legacy;
pub mod lifecycle;
pub mod open;
pub mod params;
pub mod picture_run;
pub mod poc;
pub mod pool;
pub mod readback;
pub mod ref_order;
pub mod surfaces;
