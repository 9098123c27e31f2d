pub mod conv;
pub mod datapath;
pub mod execute;
pub mod gemmini;
pub mod loops;
pub mod main;
pub mod matmul;
pub mod memory;
pub mod mvout;
pub mod norm;
