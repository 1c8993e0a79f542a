//! A triple-buffered cell that hands values from one producer thread to one
//! consumer thread without blocking either side and without tearing, plus the
//! small pieces of plain-value logic around it.

pub mod fft;
pub mod flip_cell;
pub mod history;
pub mod options;
pub mod protocol;
pub mod stream_config;
pub mod shared_state;
