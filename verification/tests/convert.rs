use dpia::convert;
use dpia::convert::{signal_to_rh, signal_to_temp};

#[test]
fn concat_bytes() {
    let empty: [u8; 0] = [];
    assert_eq!(convert::concat_bytes(&empty, &empty, 0), []);
    assert_eq!(convert::concat_bytes(&[1], &[2], 2), [1, 2]);
    assert_eq!(convert::concat_bytes(&[1, 2], &[3, 4], 4), [1, 2, 3, 4]);
}

#[test]
fn concat_bytes_leaves_gap_zero() {
    assert_eq!(convert::concat_bytes(&[1], &[3, 4], 4), [1, 0, 3, 4]);
    assert_eq!(convert::concat_bytes(&[], &[7], 3), [0, 7, 0]);
}

#[test]
fn signal() {
    let rh = signal_to_rh(0xBEEF);

    assert_ne!(rh, 0);
}

#[test]
fn signal_exact_values() {
    assert_eq!(signal_to_rh(0xBEEF), 88);
    assert_eq!(signal_to_rh(0), 0);
    assert_eq!(signal_to_rh(u16::MAX), 119);
    assert_eq!(signal_to_temp(0xBEEF), 0);
    assert_eq!(signal_to_temp(u16::MAX - 1), 0);
    assert_eq!(signal_to_temp(0), 0);
    assert_eq!(signal_to_temp(u16::MAX), 130);
}

#[test]
fn signal_monotone_on_samples() {
    let mut last_rh = 0;
    let mut last_t = 0;
    for s in (0..=u16::MAX).step_by(251) {
        let rh = signal_to_rh(s);
        let t = signal_to_temp(s);
        assert!(rh >= last_rh && t >= last_t);
        last_rh = rh;
        last_t = t;
    }
}

