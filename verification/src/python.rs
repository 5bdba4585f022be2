pub mod args;
pub mod exceptions;
pub mod py_3_14_plus;
