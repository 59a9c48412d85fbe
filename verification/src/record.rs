//! The record payload codecs, one module per record kind.

pub mod checksum;
pub mod descriptor;
pub mod filler;
pub mod firmware;
pub mod main;
pub mod text;
