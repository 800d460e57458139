//! Container and elementary-stream probes, one module per format.
pub mod alg_mm;
pub mod aea;
pub mod alias_pix;
pub mod alp;
pub mod amv;
pub mod anm;
pub mod apm;
pub mod apv;
pub mod ast;
pub mod bethsoftvid;
pub mod bfi;
pub mod bintext;
pub mod bmv;
pub mod brender_pix;
pub mod bink;
pub mod bmp;
pub mod cdg;
pub mod cine;
pub mod dds;
pub mod dfa;
pub mod dnxhd;
pub mod dpx;
pub mod flic;
pub mod gdv;
pub mod idcin;
pub mod ivf;
pub mod cdxl;
pub mod dsdiff;
pub mod act;
pub mod bfstm;
pub mod ea;
pub mod caf;
pub mod exr;
pub mod dxa;
pub mod fourxm;
pub mod gif;
pub mod iff;
pub mod flac;
pub mod fits;
pub mod asf;
pub mod amr;
pub mod ape;
pub mod ac3;
pub mod dts;
pub mod aac;
pub mod nal;
pub mod h264;
pub mod hevc;
pub mod avi;
pub mod flv;
pub mod probe;
