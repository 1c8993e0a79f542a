//! Settings of the spectrum computation that do not involve samples.
use vstd::prelude::*;

verus! {

/// How to window the FFT input to reduce sidelobes.
#[derive(Debug, Copy, Clone)]
pub enum WindowType {
    Rect,
    Hann,
}

/// The number of complex bins a real FFT of `fft_input_size` samples
/// produces, from zero to the Nyquist frequency inclusive.
pub fn fft_out_size(fft_input_size: usize) -> (r: usize)
    ensures
        r == fft_input_size / 2 + 1,
{
    fft_input_size / 2 + 1
}

} // verus!
