//! A store of recipe documents: file names derived from titles, an in-memory
//! index over the stored files, and the rules that keep the two in step.

pub mod api;
pub mod cache;
pub mod parser;
pub mod repository;
pub mod storage;
pub mod text;
