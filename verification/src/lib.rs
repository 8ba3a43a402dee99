//! Word-frequency statistics over a collection of text documents, computed by
//! three interchangeable execution strategies.

pub mod counter;
pub mod document;
pub mod frequency;
pub mod laws;
pub mod merger;
pub mod parallel;
pub mod pipeline;
pub mod strategy;
pub mod text;
