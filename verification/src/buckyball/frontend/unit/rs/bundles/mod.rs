pub mod rob_rs;
