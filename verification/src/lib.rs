pub mod strings;
pub mod config;
pub mod process;
pub mod tools;
pub mod sys;
pub mod dispatch;
pub mod templates;
pub mod webserver;
pub mod client;
