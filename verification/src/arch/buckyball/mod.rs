pub mod scoreboard;
pub mod bank;
pub mod systolic_array;
pub mod mem_ctrl;
pub mod mset;
pub mod tdma_loader;
pub mod tdma_storer;
pub mod vecball;
pub mod rs;
