//! Image references and the lifecycle rules of image datasets.
pub mod image;
pub mod lifecycle;
