pub mod bemu;
pub mod buckyball;
pub mod gemmini;
