//! The FSL transpiler: from program text to a JSON document with
//! semantic diagnostics.

pub mod err_ast;
pub mod errors;
pub mod fsl_transpiler;
