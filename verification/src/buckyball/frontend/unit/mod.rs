pub mod decoder;
pub mod rob;
pub mod rs;
