pub mod class;
pub mod dunder;
pub mod property;
pub mod uuid7;
pub mod uuid_obj;
