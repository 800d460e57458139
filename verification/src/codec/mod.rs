//! Decoders that turn encoded images, audio and video into raw frames, and the
//! checksum listings built from those frames.
pub mod digest;
pub mod raster;
pub mod bmp;
pub mod tga;
pub mod dds;
pub mod gif;
pub mod video;
pub mod pnm;
pub mod ptx;
pub mod alias_pix;
pub mod brender_pix;
pub mod sunrast;
pub mod sgi;
pub mod dpx;
pub mod xbm;
pub mod fits;
pub mod png;
pub mod pcm;
pub mod audio;
pub mod h264;
