pub mod decode;
