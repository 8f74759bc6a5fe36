//! ELF object files: the layout of their tables, the parser of the symbol
//! table, and the resolver that is bound to one file.

pub mod parser;
pub mod resolver;
pub mod types;

pub use parser::ElfParser;
pub use resolver::ElfBackend;
pub use resolver::ElfResolver;
