pub mod chess_server;
pub mod chess_session;
pub mod generator;
pub mod messages;
pub mod types;
