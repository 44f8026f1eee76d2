pub mod auto_complete;
pub mod history_handler;
pub mod interpreter;
pub mod provider;
pub mod service_container;
pub mod tokenizer;
