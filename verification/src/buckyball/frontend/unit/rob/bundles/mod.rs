pub mod decoder_rob;
