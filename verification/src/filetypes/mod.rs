//! One module per carvable file format, and the corpus that registers them.

pub mod bmp;
pub mod wav;
pub mod corpus;
pub mod jpeg;
pub mod png;
