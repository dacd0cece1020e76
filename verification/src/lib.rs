//! Hardware-accelerated video decoding: the decisions behind the VideoToolbox,
//! VA-API, NVDEC and Media Foundation backends.
//!
//! Every rule that does not itself touch a driver stands here: backend
//! selection, colour conversion, NAL unit handling, reference picture
//! management, and what each backend does next once a driver call has
//! answered.  The driver calls themselves are made by the code around this
//! library, which hands in plain values (status codes, handles, bytes) and
//! carries out what comes back.

pub mod backend;
pub mod color;
pub mod media;
pub mod media_foundation;
pub mod nal;
pub mod nvdec;
pub mod pixels;
pub mod text;
pub mod time;
pub mod vaapi;
pub mod videotoolbox;
