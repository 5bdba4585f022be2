pub mod time;
pub mod win_api;
