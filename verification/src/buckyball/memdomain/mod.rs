pub mod banks;
pub mod dma;
pub mod memdomain;
pub mod tdma_load;
pub mod tdma_store;
