use ate_chip::error::ACEmError;
use ate_chip::settings::{ACAudioSpec, ACSettings};
use ate_chip::{SCREEN_HEIGHT, SCREEN_WIDTH};

#[test]
fn frame_length_at_the_target_rate() {
    let s = ACSettings {
        fx1e_affects_vf: false,
        target_fps: 200,
        audio: ACAudioSpec { freq: Some(44100), channels: Some(1), samples: None },
    };
    assert_eq!(s.frame_nanos(), 5_000_000);
    assert_eq!(s.sleep_nanos(1_000_000), 4_000_000);
    assert_eq!(s.sleep_nanos(5_000_000), 0);
    assert_eq!(s.sleep_nanos(7_000_000), 0);
    assert_eq!(s.audio.freq, Some(44100));
}

#[test]
fn screen_size() {
    assert_eq!(SCREEN_WIDTH, 64);
    assert_eq!(SCREEN_HEIGHT, 32);
}

#[test]
fn error_messages() {
    let e: ACEmError = String::from("no display").into();
    assert_eq!(e.message(), "no display");
    let io = std::io::Error::new(std::io::ErrorKind::NotFound, "missing");
    let e: ACEmError = io.into();
    assert_eq!(e.message(), "Failed to read file: missing");
    assert!(matches!(e, ACEmError::FileReadError(_)));
}
