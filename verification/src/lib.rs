//! A header-text extraction engine.
//!
//! The library walks a tree of C declaration header files, given up front as
//! named line lists, classifies each line, and extracts structured records
//! describing classes, class methods, free functions, and their argument
//! lists. A post-processing pass then attaches each method to its owning
//! class record by naming convention.
#![verifier::loop_isolation(false)]

pub mod classify;
pub mod model;
pub mod parse;
pub mod resolve;
pub mod text;
pub mod traverse;
