//! An ERb-like template compiler: a scanner that splits a template into
//! classified, positioned blocks, a parser that collects them, and an
//! assembler that emits the source of one function from them.

pub mod blocks;
pub mod parser;
pub mod scanner;
pub mod template;
mod text;

pub use blocks::{Block, Class, Pos};
pub use parser::Parser;
pub use scanner::Scanner;
pub use template::{Template, TemplateWriteError};
