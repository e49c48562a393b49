//! The FSL compiler front end.

pub mod fsl_compiler;
