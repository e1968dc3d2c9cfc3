pub mod ast;
pub mod lexer;
pub mod text;
pub mod token;
pub mod render;
pub mod parser;
pub mod grammar;
pub mod formatter;
pub mod cli;
pub mod deps;
pub mod stdlib;
pub mod features;
pub mod llvm_types;
pub mod typecheck;
pub mod loop_depth;
pub mod codegen;
pub mod module_loader;
pub mod loader;
pub mod analysis;
pub mod document;
pub mod hover;
pub mod completion;
pub mod semantic_tokens;
pub mod codegen_go;
pub mod codegen_llvm;
