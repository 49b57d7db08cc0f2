//! Text-to-image emoji generation: resolving the paint colours of a request,
//! laying a text out on a fixed canvas, and encoding the finished picture.

pub mod canvas;
pub mod color;
pub mod error;
pub mod format;
pub mod render;
pub mod service;
pub mod text;
