pub mod crashlog;
pub mod report;
pub mod stack;
pub mod symbols;
pub mod text;
