//! Request handling for an image-classification service: decoding upload
//! forms, reading the classifier's output, and filing labeled training
//! images with an audit record.

pub mod failure;
pub mod label;
pub mod multipart;
pub mod numeral;
pub mod parser;
pub mod predict;
pub mod text;
pub mod training;
