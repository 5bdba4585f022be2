pub mod helpers;
pub mod hex;
pub mod table;
