pub mod handlers;
pub mod main;
pub mod server;
