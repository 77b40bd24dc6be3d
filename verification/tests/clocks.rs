use grizld::sync::PlaybackClock;
use grizld::timeline::clock::{AudioClock, Clock, SystemClock};
use grizld::timeline::frame::Microseconds;
use grizld::types::PlaybackState;
use std::time::{Duration, Instant};

fn sleep(d: Duration) {
    let start = Instant::now();
    while start.elapsed() < d {}
}

#[test]
fn test_clock_starts_at_zero() {
    let clock = PlaybackClock::new();
    assert_eq!(clock.current_time(), 0);
    assert!(clock.state().is_stopped());
}

#[test]
fn test_clock_play_pause() {
    let mut clock = PlaybackClock::new();

    clock.set_state(PlaybackState::Playing);
    assert!(clock.state().is_playing());

    sleep(Duration::from_millis(100));
    let time1 = clock.current_time();
    assert!(time1 > 0 && time1 < 200_000);

    clock.set_state(PlaybackState::Paused);
    assert!(clock.state().is_paused());

    sleep(Duration::from_millis(100));
    let time2 = clock.current_time();
    // Time should not advance when paused
    assert!((time2 - time1).abs() < 10_000);
}

#[test]
fn test_clock_seek() {
    let mut clock = PlaybackClock::new();

    clock.seek(10_500_000);
    assert_eq!(clock.current_time(), 10_500_000);

    clock.set_state(PlaybackState::Playing);
    sleep(Duration::from_millis(100));
    let time = clock.current_time();
    assert!(time > 10_500_000 && time < 10_700_000);
}

#[test]
fn playback_clock_follows_audio_only_while_playing() {
    let mut clock = PlaybackClock::default();
    clock.update_from_audio(5_000_000);
    assert_eq!(clock.current_time(), 0);
    clock.set_state(PlaybackState::Playing);
    clock.update_from_audio(5_000_000);
    let t = clock.current_time();
    assert!(t >= 5_000_000 && t < 5_100_000);
    assert_eq!(clock.time_at(250), 5_000_250);
    clock.reset();
    assert!(clock.state().is_stopped());
    assert_eq!(clock.current_time(), 0);
}

#[test]
fn audio_clock_is_set_from_outside() {
    let mut clock = AudioClock::new();
    assert!(clock.is_paused());
    assert_eq!(clock.time(), Microseconds(0));
    clock.update_pts(Microseconds::new(1234));
    assert_eq!(clock.time(), Microseconds(1234));
    clock.resume();
    assert!(!Clock::is_paused(&clock));
    clock.set_time(Microseconds(99));
    assert_eq!(clock.time().0, 99);
    clock.pause();
    assert!(clock.is_paused());
}

#[test]
fn system_clock_stands_still_while_paused() {
    let mut clock = SystemClock::new();
    assert!(clock.is_paused());
    assert_eq!(clock.time(), Microseconds(0));
    sleep(Duration::from_millis(20));
    assert_eq!(clock.time(), Microseconds(0));
    clock.set_time(Microseconds(2_000_000));
    sleep(Duration::from_millis(20));
    let paused_at = clock.time();
    assert_eq!(paused_at, Microseconds(2_000_000));
    clock.resume();
    sleep(Duration::from_millis(30));
    let running = clock.time();
    assert!(running.0 >= paused_at.0 + 25_000);
    clock.pause();
    let a = clock.time();
    sleep(Duration::from_millis(20));
    assert_eq!(clock.time(), a);
}

#[test]
fn playback_clock_pause_freezes_and_play_goes_on() {
    let mut clock = PlaybackClock::new();
    clock.seek(1_000_000);
    clock.set_state(PlaybackState::Playing);
    sleep(Duration::from_millis(30));
    clock.set_state(PlaybackState::Paused);
    let frozen = clock.current_time();
    assert!(frozen >= 1_025_000);
    sleep(Duration::from_millis(30));
    assert_eq!(clock.current_time(), frozen);
    clock.set_state(PlaybackState::Stopped);
    assert_eq!(clock.current_time(), frozen);
    clock.set_state(PlaybackState::Playing);
    assert!(clock.current_time() >= frozen);
    assert!(clock.current_time() < frozen + 20_000);
    sleep(Duration::from_millis(30));
    assert!(clock.current_time() >= frozen + 25_000);
}
