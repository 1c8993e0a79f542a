use flip_cell::stream_config::{
    alsa_needs_manual_config, choose_sample_rate, peak_meter_width, pick_config_range,
    should_warn_alsa, vec_take,
};

#[test]
fn take_from_vec() {
    assert_eq!(vec_take(vec!['a', 'b', 'c'], 0), Some('a'));
    assert_eq!(vec_take(vec!['a', 'b', 'c'], 2), Some('c'));
    assert_eq!(vec_take(vec!['a', 'b', 'c'], 3), None);
    assert_eq!(vec_take(Vec::<u8>::new(), 0), None);
}

#[test]
fn pick_range_by_channels() {
    let counts = vec![1u16, 2, 6, 2];
    assert_eq!(pick_config_range(&counts, None), Some(0));
    assert_eq!(pick_config_range(&counts, Some(2)), Some(1));
    assert_eq!(pick_config_range(&counts, Some(6)), Some(2));
    assert_eq!(pick_config_range(&counts, Some(8)), Some(0));
    assert_eq!(pick_config_range(&Vec::new(), Some(2)), None);
}

#[test]
fn sample_rate_choice() {
    assert_eq!(choose_sample_rate(None, 8000, 48000), 48000);
    assert_eq!(choose_sample_rate(Some(44100), 8000, 48000), 44100);
    assert_eq!(choose_sample_rate(Some(384000), 8000, 48000), 48000);
    assert_eq!(choose_sample_rate(Some(4000), 8000, 48000), 8000);
}

#[test]
fn alsa_checks() {
    assert!(should_warn_alsa(true, false, true));
    assert!(!should_warn_alsa(true, true, true));
    assert!(!should_warn_alsa(false, false, false));
    assert!(alsa_needs_manual_config(true, 1, 48000));
    assert!(alsa_needs_manual_config(false, 9, 48000));
    assert!(alsa_needs_manual_config(false, 1, 1_000_000));
    assert!(!alsa_needs_manual_config(false, 8, 999_999));
}

#[test]
fn peak_meter() {
    assert_eq!(peak_meter_width(&[]), 0);
    assert_eq!(peak_meter_width(&[-32768]), 100);
    assert_eq!(peak_meter_width(&[16384]), 50);
    assert_eq!(peak_meter_width(&[100, -3277, 12]), 10);
    assert_eq!(peak_meter_width(&[100, -200]), 0);
}
