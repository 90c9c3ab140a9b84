pub mod text;
pub mod str_map;
pub mod util;
pub mod json;
pub mod types;
pub mod structs;
pub mod actions;
pub mod reducers;
pub mod middlewares;
pub mod components;
pub mod auth;
pub mod client;
pub mod session;
