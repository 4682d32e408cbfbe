pub mod error;
pub mod fileutils;
