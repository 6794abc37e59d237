use vstd::prelude::*;

pub mod audio;
pub mod device;
pub mod engine;
pub mod fft;
pub mod scalar;
pub mod settings;
