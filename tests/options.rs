use flip_cell::fft::{fft_out_size, WindowType};
use flip_cell::options::{
    check_fft_size, parse_fft_size, parse_redraw_size, parse_validate, SizeError, MAX_FFT_SIZE,
    MIN_FFT_SIZE,
};

#[test]
fn fft_size_accepts_even_sizes_in_range() {
    assert_eq!(parse_fft_size("2048"), Ok(2048));
    assert_eq!(parse_fft_size("4"), Ok(4));
    assert_eq!(parse_fft_size("16384"), Ok(16384));
    assert_eq!(parse_fft_size("+8"), Ok(8));
}

#[test]
fn fft_size_errors() {
    assert_eq!(parse_fft_size("abc"), Err(SizeError::NotAnInteger));
    assert_eq!(parse_fft_size(""), Err(SizeError::NotAnInteger));
    assert_eq!(parse_fft_size(" 8"), Err(SizeError::NotAnInteger));
    assert_eq!(parse_fft_size("-4"), Err(SizeError::NotAnInteger));
    assert_eq!(parse_fft_size("16386"), Err(SizeError::TooLarge(16386)));
    assert_eq!(parse_fft_size("2"), Err(SizeError::TooSmall(2)));
    assert_eq!(parse_fft_size("7"), Err(SizeError::Odd(7)));
    assert_eq!(check_fft_size(MAX_FFT_SIZE + 2), Err(SizeError::TooLarge(MAX_FFT_SIZE + 2)));
    assert_eq!(check_fft_size(MIN_FFT_SIZE - 1), Err(SizeError::TooSmall(MIN_FFT_SIZE - 1)));
}

#[test]
fn redraw_size_parsing() {
    assert_eq!(parse_redraw_size("512"), Ok(512));
    assert_eq!(parse_redraw_size("0"), Err(SizeError::Zero));
    assert_eq!(parse_redraw_size("x"), Err(SizeError::NotAnInteger));
}

#[test]
fn redraw_size_is_clamped_and_must_divide() {
    assert_eq!(parse_validate(2048, 512), Ok(512));
    assert_eq!(parse_validate(2048, 4096), Ok(2048));
    assert_eq!(
        parse_validate(2048, 500),
        Err(SizeError::NotAMultiple { fft_size: 2048, redraw_size: 500 })
    );
}

#[test]
fn spectrum_length() {
    assert_eq!(fft_out_size(2048), 1025);
    assert_eq!(fft_out_size(4), 3);
    let w = WindowType::Hann;
    assert!(matches!(w, WindowType::Hann));
}
