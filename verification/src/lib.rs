//! A compiler core for a small interface-definition language describing
//! RPC services: a verified parser from schema text to a located syntax
//! tree, a canonical printer, a semantic check, a naming and flattening
//! layer, and the generators that emit the protocol dispatch types and the
//! handler registration surface.

pub mod ast;
pub mod checker;
pub mod codegen;
pub mod dispatch;
pub mod emit;
pub mod grammar;
pub mod handler;
pub mod ir;
pub mod laws;
pub mod names;
pub mod parser;
pub mod printer;
pub mod protocol;
pub mod roundtrip;
pub mod text;
