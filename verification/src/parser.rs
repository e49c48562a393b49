//! The FSL parser.

pub mod fsl_parser;
