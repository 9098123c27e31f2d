pub mod bundles;
pub mod unit;
