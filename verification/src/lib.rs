pub mod modules;
pub mod shell;
pub mod util;

pub use modules::tokenizer;
