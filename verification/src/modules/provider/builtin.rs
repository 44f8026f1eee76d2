pub mod echo;
pub mod exit;
pub mod history;
pub mod pwd;
pub mod type_;
