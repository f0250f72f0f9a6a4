//! Rope defect detection: the integer core of the frame analysis pipeline.
pub mod domain;
pub mod algorithm;
pub mod infrostructure;
