//! Deterministic pseudonymization of DICOM metadata.
//!
//! The library models a DICOM object as a set of tagged string attributes,
//! derives pseudonymous identifiers from the attributes of each object, and
//! rewrites or deletes the identifying attributes.  Reading and writing the
//! binary DICOM encoding, walking directories, and serializing the results
//! are left to the caller; everything that decides *what* the output looks
//! like lives here, with its behaviour stated in contracts.

pub mod batch;
pub mod classify;
pub mod error;
pub mod eval;
pub mod extract;
pub mod identity;
pub mod model;
pub mod naming;
pub mod rewrite;
pub mod tags;
pub mod text;
