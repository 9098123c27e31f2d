pub mod balldomain;
pub mod bmt;
pub mod decoder;
pub mod frontend;
pub mod lib;
pub mod memdomain;
pub mod rob;
