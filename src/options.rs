//! Parsing and checking of the FFT size and redraw size given on the
//! command line.
use vstd::prelude::*;

verus! {

/// The smallest FFT size accepted.
pub const MIN_FFT_SIZE: usize = 4;

/// The largest FFT size accepted.
pub const MAX_FFT_SIZE: usize = 16384;

/// Why a size given on the command line was refused.
#[derive(Debug, Clone, Copy, PartialEq, Eq, Structural)]
pub enum SizeError {
    /// The text is not a non-negative integer that fits in `usize`.
    NotAnInteger,
    /// The FFT size is above `MAX_FFT_SIZE`.
    TooLarge(usize),
    /// The FFT size is below `MIN_FFT_SIZE`.
    TooSmall(usize),
    /// The FFT size is odd.
    Odd(usize),
    /// The redraw size is zero.
    Zero,
    /// The FFT size is not a multiple of the redraw size.
    NotAMultiple { fft_size: usize, redraw_size: usize },
}

/// Whether `c` is an ASCII digit.
pub open spec fn is_digit(c: char) -> bool {
    '0' <= c && c <= '9'
}

/// The value of a string of ASCII digits, read in base ten.
pub open spec fn digits_value(s: Seq<char>) -> nat
    decreases s.len(),
{
    if s.len() == 0 {
        0
    } else {
        digits_value(s.drop_last()) * 10 + (s.last() as int - '0' as int) as nat
    }
}

/// The digits of a decimal number after its optional leading `+`.
pub open spec fn unsigned_digits(s: Seq<char>) -> Seq<char> {
    if s.len() > 0 && s[0] == '+' {
        s.drop_first()
    } else {
        s
    }
}

/// The `usize` that a text denotes: an optional `+`, then one or more ASCII
/// digits whose value fits in `usize`; nothing else.
pub open spec fn decimal_usize(s: Seq<char>) -> Option<usize> {
    let d = unsigned_digits(s);
    if d.len() > 0 && (forall|i: int| 0 <= i < d.len() ==> is_digit(#[trigger] d[i]))
        && digits_value(d) <= usize::MAX {
        Some(digits_value(d) as usize)
    } else {
        None
    }
}

/// Relies on `usize`'s `FromStr` (`str::parse`): it accepts an optional `+`
/// followed by one or more ASCII digits whose value fits in `usize`, and
/// refuses anything else, whitespace included.
#[verifier::external_body]
fn parse_usize(src: &str) -> (r: Option<usize>)
    ensures
        r == decimal_usize(src@),
{
    src.parse::<usize>().ok()
}

/// What `check_fft_size` returns for `n`.
pub open spec fn fft_size_result(n: usize) -> Result<usize, SizeError> {
    if n > MAX_FFT_SIZE {
        Err(SizeError::TooLarge(n))
    } else if n < MIN_FFT_SIZE {
        Err(SizeError::TooSmall(n))
    } else if n % 2 != 0 {
        Err(SizeError::Odd(n))
    } else {
        Ok(n)
    }
}

/// Accepts an FFT size that is even and within
/// `MIN_FFT_SIZE..=MAX_FFT_SIZE`.
pub fn check_fft_size(n: usize) -> (r: Result<usize, SizeError>)
    ensures
        r == fft_size_result(n),
{
    if n > MAX_FFT_SIZE {
        return Err(SizeError::TooLarge(n));
    }
    if n < MIN_FFT_SIZE {
        return Err(SizeError::TooSmall(n));
    }
    if n % 2 != 0 {
        return Err(SizeError::Odd(n));
    }
    Ok(n)
}

/// Parses an FFT size given as text.
pub fn parse_fft_size(src: &str) -> (r: Result<usize, SizeError>)
    ensures
        r == match decimal_usize(src@) {
            None => Err(SizeError::NotAnInteger),
            Some(n) => fft_size_result(n),
        },
{
    match parse_usize(src) {
        None => Err(SizeError::NotAnInteger),
        Some(n) => check_fft_size(n),
    }
}

/// Parses a redraw size given as text; it must be at least one.
pub fn parse_redraw_size(src: &str) -> (r: Result<usize, SizeError>)
    ensures
        r == match decimal_usize(src@) {
            None => Err(SizeError::NotAnInteger),
            Some(n) => if n == 0 {
                Err(SizeError::Zero)
            } else {
                Ok(n)
            },
        },
{
    match parse_usize(src) {
        None => Err(SizeError::NotAnInteger),
        Some(n) => {
            if n == 0 {
                Err(SizeError::Zero)
            } else {
                Ok(n)
            }
        },
    }
}

/// Clamps the redraw size down to the FFT size and checks that it divides
/// the FFT size; returns the redraw size to use.
pub fn parse_validate(fft_size: usize, redraw_size: usize) -> (r: Result<usize, SizeError>)
    requires
        fft_size > 0,
        redraw_size > 0,
    ensures
        ({
            let clamped = if redraw_size < fft_size {
                redraw_size
            } else {
                fft_size
            };
            r == if fft_size % clamped == 0 {
                Ok(clamped)
            } else {
                Err(SizeError::NotAMultiple { fft_size, redraw_size: clamped })
            }
        }),
{
    let redraw_size = if redraw_size < fft_size {
        redraw_size
    } else {
        fft_size
    };
    if fft_size % redraw_size != 0 {
        return Err(SizeError::NotAMultiple { fft_size, redraw_size });
    }
    Ok(redraw_size)
}

} // verus!
