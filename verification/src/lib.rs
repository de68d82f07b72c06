//! Rendering of resolved types and function signatures as C-style
//! declarations, for a C, a C++ and a C# dialect.

pub mod cdecl;
pub mod decl;
pub mod ir;
pub mod laws;
pub mod writer;

pub use crate::cdecl::{write_field, write_func, write_type, CDecl};
pub use crate::ir::{DeclarationType, Dialect, Function, GenericPath, Language, Type};
pub use crate::writer::SourceWriter;
