//! Choices made while opening the audio input: which device, which
//! configuration range, which sampling rate, and whether the host needs the
//! user to name them.
use vstd::prelude::*;

verus! {

/// Takes the item at `index` out of `vec`, or `None` when there is none.
pub fn vec_take<T>(vec: Vec<T>, index: usize) -> (r: Option<T>)
    ensures
        index < vec@.len() ==> r == Some(vec@[index as int]),
        index >= vec@.len() ==> r is None,
{
    let mut vec = vec;
    if index < vec.len() {
        Some(vec.swap_remove(index))
    } else {
        None
    }
}

/// Whether a range with `count` channels matches the request.
pub open spec fn has_channels(count: u16, c: u32) -> bool {
    count as u32 == c
}

/// Whether position `i` is the range to pick: the first with the requested
/// channel count if one has it, else the first range.
pub open spec fn is_picked_range(counts: Seq<u16>, requested: Option<u32>, i: int) -> bool {
    &&& 0 <= i < counts.len()
    &&& match requested {
        None => i == 0,
        Some(c) => if exists|j: int| 0 <= j < counts.len() && has_channels(#[trigger] counts[j], c) {
            has_channels(counts[i], c) && forall|j: int|
                0 <= j < i ==> !has_channels(#[trigger] counts[j], c)
        } else {
            i == 0
        },
    }
}

/// Picks a configuration range by its channel count: the first range with
/// the requested count, or else the first range; `None` when there are no
/// ranges.
pub fn pick_config_range(channel_counts: &Vec<u16>, requested: Option<u32>) -> (r: Option<usize>)
    ensures
        channel_counts@.len() == 0 <==> r is None,
        r matches Some(i) ==> is_picked_range(channel_counts@, requested, i as int),
{
    if channel_counts.len() == 0 {
        return None;
    }
    match requested {
        None => Some(0),
        Some(c) => {
            let mut i: usize = 0;
            while i < channel_counts.len()
                invariant
                    0 < channel_counts@.len(),
                    requested == Some(c),
                    0 <= i <= channel_counts@.len(),
                    forall|j: int| 0 <= j < i ==> !has_channels(#[trigger] channel_counts@[j], c),
                decreases channel_counts@.len() - i,
            {
                if channel_counts[i] as u32 == c {
                    return Some(i);
                }
                i = i + 1;
            }
            Some(0)
        },
    }
}

/// `input` limited to `min..=max`.
pub open spec fn clamped(input: u32, min: u32, max: u32) -> u32 {
    if input < min {
        min
    } else if input > max {
        max
    } else {
        input
    }
}

/// Relies on `num_traits::clamp`: `min` below the range, `max` above it,
/// `input` inside it. It asserts `min <= max` in debug builds.
#[verifier::external_body]
fn clamp_u32(input: u32, min: u32, max: u32) -> (r: u32)
    requires
        min <= max,
    ensures
        r == clamped(input, min, max),
{
    num_traits::clamp(input, min, max)
}

/// The sampling rate to open a range with: the requested one limited to the
/// range, or the range's maximum when none was requested.
pub fn choose_sample_rate(requested: Option<u32>, min_rate: u32, max_rate: u32) -> (r: u32)
    requires
        min_rate <= max_rate,
    ensures
        r == match requested {
            None => max_rate,
            Some(rate) => clamped(rate, min_rate, max_rate),
        },
{
    match requested {
        None => max_rate,
        Some(rate) => {
            if min_rate <= rate && rate <= max_rate {
                rate
            } else {
                clamp_u32(rate, min_rate, max_rate)
            }
        },
    }
}

/// Whether to warn that an ALSA host may open the device with the wrong
/// sampling rate or channel count: on ALSA, unless both were given.
pub fn should_warn_alsa(is_alsa: bool, channels_given: bool, rate_given: bool) -> (r: bool)
    ensures
        r == (is_alsa && !(channels_given && rate_given)),
{
    is_alsa && !(channels_given && rate_given)
}

/// The number of configuration ranges above which an ALSA device is taken to
/// report made-up ranges.
pub const MAX_PLAUSIBLE_RANGES: usize = 8;

/// The sampling rate at or above which an ALSA device is taken to report
/// made-up ranges.
pub const IMPLAUSIBLE_RATE: u32 = 1_000_000;

/// Whether an ALSA device reports ranges that cannot be trusted, so that the
/// user must name the sampling rate and the channel count: the device is
/// PulseAudio's, or it lists too many ranges, or its first range reaches an
/// implausible rate.
pub fn alsa_needs_manual_config(is_pulse: bool, n_ranges: usize, first_max_rate: u32) -> (r: bool)
    ensures
        r == (is_pulse || n_ranges > MAX_PLAUSIBLE_RANGES || first_max_rate >= IMPLAUSIBLE_RATE),
{
    is_pulse || n_ranges > MAX_PLAUSIBLE_RANGES || first_max_rate >= IMPLAUSIBLE_RATE
}

/// The magnitude of a sample.
pub open spec fn magnitude(x: i16) -> nat {
    if x < 0 {
        (-(x as int)) as nat
    } else {
        x as nat
    }
}

/// The largest magnitude among samples; zero for none.
pub open spec fn peak(s: Seq<i16>) -> nat
    decreases s.len(),
{
    if s.len() == 0 {
        0
    } else {
        let p = peak(s.drop_last());
        if magnitude(s.last()) > p {
            magnitude(s.last())
        } else {
            p
        }
    }
}

/// Width, in characters out of 100, of a peak meter bar for a block of
/// samples: the peak magnitude as a share of full scale.
pub fn peak_meter_width(data: &[i16]) -> (r: usize)
    ensures
        r == peak(data@) * 100 / 32768,
{
    let mut p: usize = 0;
    let mut i: usize = 0;
    while i < data.len()
        invariant
            0 <= i <= data@.len(),
            p == peak(data@.subrange(0, i as int)),
            p <= 32768,
        decreases data@.len() - i,
    {
        let x = data[i];
        let m: usize = if x < 0 {
            (-(x as i32)) as usize
        } else {
            x as usize
        };
        assert(data@.subrange(0, i + 1).drop_last() == data@.subrange(0, i as int));
        if m > p {
            p = m;
        }
        i = i + 1;
    }
    assert(data@.subrange(0, data@.len() as int) == data@);
    p * 100 / 32768
}

} // verus!
