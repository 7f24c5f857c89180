//! The values of the supported CSS properties.

pub mod display;
pub mod length;
pub mod property;
pub mod keyword;
