//! Client-side core of an image-to-3D-asset acquisition pipeline: the transfer
//! session state machine, the chunked download reassembly and the policy of a
//! time-bounded local content cache.

pub mod download;
pub mod image_uploader;
pub mod pipeline;
pub mod ply_cache;
pub mod reload;
pub mod text;
pub mod wire;
