pub mod rocc_frontend;
