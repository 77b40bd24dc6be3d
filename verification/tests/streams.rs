use grizld::rational::Rational;
use grizld::timeline::frame::{Microseconds, TimebaseUnits};
use grizld::timeline::stream::{AudioStream, Stream, StreamInfo, VideoStream};

fn ntsc() -> VideoStream {
    VideoStream::new(0, (1, 90000), 900_000, 1920, 1080, (30000, 1001), (0, 0))
}

#[test]
fn video_stream_reports_what_it_was_given() {
    let s = ntsc();
    assert_eq!(s.index(), 0);
    assert_eq!(s.width(), 1920);
    assert_eq!(s.height(), 1080);
    assert_eq!(s.time_base(), Rational { numer: 1, denom: 90000 });
    assert_eq!(s.frame_rate(), Rational { numer: 30000, denom: 1001 });
    assert_eq!(s.pts_duration(), TimebaseUnits(900_000));
}

#[test]
fn time_bases_are_kept_in_lowest_terms() {
    let s = VideoStream::new(3, (2, 180000), 0, 640, 480, (60, 2), (0, 0));
    assert_eq!(s.time_base(), Rational { numer: 1, denom: 90000 });
    assert_eq!(s.frame_rate(), Rational { numer: 30, denom: 1 });
    let s = VideoStream::new(3, (1, -1000), 0, 640, 480, (0, 0), (0, 0));
    assert_eq!(s.time_base(), Rational { numer: -1, denom: 1000 });
}

#[test]
fn frame_rate_falls_back() {
    let s = VideoStream::new(0, (1, 1000), 0, 1, 1, (24, 0), (25, 1));
    assert_eq!(s.frame_rate(), Rational { numer: 25, denom: 1 });
    let s = VideoStream::new(0, (1, 1000), 0, 1, 1, (0, 0), (0, 0));
    assert_eq!(s.frame_rate(), Rational { numer: 30, denom: 1 });
}

#[test]
fn pts_and_duration_in_microseconds() {
    let s = ntsc();
    assert_eq!(s.pts_to_microseconds(TimebaseUnits(90_000)), Some(Microseconds(1_000_000)));
    assert_eq!(s.pts_to_microseconds(TimebaseUnits(1)), Some(Microseconds(11)));
    assert_eq!(s.pts_to_microseconds(TimebaseUnits(-1)), Some(Microseconds(-11)));
    assert_eq!(s.duration(), Microseconds(10_000_000));
}

#[test]
fn microseconds_to_stream_units_round_to_nearest() {
    let s = ntsc();
    assert_eq!(s.microseconds_to_timestamp(Microseconds(1_000_000)), 90_000);
    let thirds = AudioStream::new(1, (1, 3), 0, 2, 48000);
    assert_eq!(thirds.microseconds_to_timestamp(Microseconds(500_000)), 2);
    assert_eq!(thirds.microseconds_to_timestamp(Microseconds(-500_000)), -2);
    assert_eq!(thirds.microseconds_to_timestamp(Microseconds(400_000)), 1);
}

#[test]
fn frames_and_microseconds() {
    let s = ntsc();
    assert_eq!(s.frame_to_microseconds(0), Microseconds(0));
    assert_eq!(s.frame_to_microseconds(1), Microseconds(33_367));
    assert_eq!(s.frame_to_microseconds(30), Microseconds(1_001_000));
    assert_eq!(s.microseconds_to_frame(Microseconds(33_367)), 1);
    assert_eq!(s.microseconds_to_frame(Microseconds(1_000_000)), 30);
    assert_eq!(s.microseconds_to_frame(Microseconds(16_683)), 0);
    assert_eq!(s.microseconds_to_frame(Microseconds(16_684)), 1);
}

#[test]
fn frame_times_round_trip() {
    for s in [
        ntsc(),
        VideoStream::new(0, (1, 1000), 0, 1, 1, (24, 1), (0, 0)),
        VideoStream::new(0, (1, 1000), 0, 1, 1, (60000, 1001), (0, 0)),
    ] {
        for n in 0..2000u64 {
            assert_eq!(s.microseconds_to_frame(s.frame_to_microseconds(n)), n);
        }
    }
}

#[test]
fn audio_stream_reports_what_it_was_given() {
    let s = AudioStream::new(1, (1, 48000), 480_000, 2, 48000);
    assert_eq!(s.index(), 1);
    assert_eq!(s.channels(), 2);
    assert_eq!(s.sample_rate(), 48000);
    assert_eq!(s.duration(), Microseconds(10_000_000));
    match Stream::Audio(s) {
        Stream::Audio(a) => assert_eq!(a.sample_rate(), 48000),
        Stream::Video(_) => panic!("wrong kind"),
    }
}
