//! Decoding and validation core of a reader for a 3D-scene interchange
//! format: typed accessor decoding over borrowed bytes, animation and skin
//! readers, and a two-pass validation that reports every violation with its
//! path in the document.
pub mod accessor;
pub mod animation;
pub mod json;
pub mod skin;
pub mod validation;
