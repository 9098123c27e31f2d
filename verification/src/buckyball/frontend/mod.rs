pub mod bundles;
pub mod decoder;
pub mod frontend;
pub mod rob;
pub mod rs;
pub mod unit;
