pub mod domain_decoder;
pub mod transpose;
