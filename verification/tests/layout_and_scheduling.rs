use grizld::buffer::FrameBuffer;
use grizld::cache::{AudioCache, FrameCache};
use grizld::playout::audio_output;
use grizld::scheduler::{
    accept_packet, audio_worker_action, keep_decoded_frame, needs_frames_for_time,
    needs_packet_refill, packet_queue_full, refill_plan, route_packet, schedule_frame,
    video_worker_action, AudioWorkerAction, PacketRoute, VideoWorkerAction,
};
use grizld::sync::PlaybackClock;
use grizld::timeline::layout::VideoViewport;
use grizld::types::{AudioSample, PixelFormat, PlaybackState, VideoFrame};

fn frame(pts: i64) -> VideoFrame {
    VideoFrame::new(pts, vec![], 0, 0, PixelFormat::Bgra)
}

#[test]
fn viewport_guards_against_zero_sizes() {
    let mut vp = VideoViewport::new(0, 720, 1920, 0, 10, 20);
    assert_eq!(vp.window_dimensions(), (1, 720));
    assert_eq!(vp.video_dimensions(), (1920, 1));
    assert!(vp.has_video());
    assert!(!vp.update_window_dimensions(1, 720, 10, 20));
    assert!(vp.update_window_dimensions(1280, 720, 10, 20));
    assert_eq!(vp.window_dimensions(), (1280, 720));
    assert!(vp.update_video_dimensions(1920, 1080));
    assert!(!vp.update_video_dimensions(1920, 1080));
    let empty = VideoViewport::default();
    assert!(!empty.has_video());
}

#[test]
fn refill_requests_follow_cache_health() {
    let cache = FrameCache::new(15, 15);
    let audio = AudioCache::default();
    let plan = refill_plan(&cache, &audio);
    assert_eq!(plan.video_requests, 15);
    // 2s missing / 21ms per packet = 96 packets, capped at 50
    assert_eq!(plan.audio_requests, 50);

    let mut cache = FrameCache::new(4, 4);
    for pts in 0..3 {
        cache.push(frame(pts));
    }
    let mut audio = AudioCache::default();
    audio.push(AudioSample::new(0, vec![0; 2 * 48_000], 48_000));
    let plan = refill_plan(&cache, &audio);
    assert_eq!(plan.video_requests, 0);
    assert_eq!(plan.audio_requests, 0);

    // 0.99s of audio ahead: 1.01s missing = 49 packets
    let mut audio = AudioCache::default();
    audio.push(AudioSample::new(0, vec![0; 2 * 47_520], 48_000));
    assert_eq!(refill_plan(&cache, &audio).audio_requests, 49);
}

#[test]
fn scheduled_frame_comes_with_plan() {
    let mut cache = FrameCache::new(10, 10);
    cache.push(frame(0));
    cache.push(frame(40_000));
    let audio = AudioCache::default();
    let (f, plan) = schedule_frame(&mut cache, &audio, 10_000);
    assert_eq!(f.unwrap().pts, 0);
    assert_eq!(plan.video_requests, 9);
}

#[test]
fn worker_decisions() {
    assert!(needs_frames_for_time(true, None, 0));
    assert!(needs_frames_for_time(true, Some((0, 400_000)), 0));
    assert!(!needs_frames_for_time(true, Some((0, 500_000)), 0));
    assert!(!needs_frames_for_time(false, None, 0));
    assert!(keep_decoded_frame(true, 900_000, 1_000_000));
    assert!(!keep_decoded_frame(true, 899_999, 1_000_000));
    assert!(keep_decoded_frame(false, 0, 1_000_000));

    let mut buffer = FrameBuffer::new(4);
    assert_eq!(
        video_worker_action(&buffer, true, 0, 50),
        VideoWorkerAction::Decode { remove_old: true, buffering: true }
    );
    for pts in [0, 200_000, 400_000, 800_000] {
        buffer.push(frame(pts));
    }
    assert_eq!(video_worker_action(&buffer, true, 0, 1), VideoWorkerAction::Wait);
    assert_eq!(
        video_worker_action(&buffer, true, 400_000, 3),
        VideoWorkerAction::Decode { remove_old: false, buffering: false }
    );

    assert_eq!(route_packet(0, 0, 1), PacketRoute::Video);
    assert_eq!(route_packet(1, 0, 1), PacketRoute::Audio);
    assert_eq!(route_packet(2, 0, 1), PacketRoute::Drop);
    assert!(packet_queue_full(100));
    assert!(!packet_queue_full(99));
    assert!(needs_packet_refill(24, 30, false));
    assert!(!needs_packet_refill(25, 25, false));
    assert!(!needs_packet_refill(0, 0, true));
    assert!(accept_packet(49));
    assert!(!accept_packet(50));
}

#[test]
fn audio_output_steers_clock_to_middle_of_played_audio() {
    let mut cache = AudioCache::new(2_000_000, 2_000_000, 1000);
    cache.push(AudioSample::new(1_000_000, vec![7; 40], 1000));
    let mut clock = PlaybackClock::new();
    // Not playing: silence, nothing consumed
    let out = audio_output(&mut cache, &mut clock, 10, 1000);
    assert_eq!(out, vec![0; 10]);
    assert_eq!(cache.ahead_len(), 40);
    clock.set_state(PlaybackState::Playing);
    let out = audio_output(&mut cache, &mut clock, 20, 1000);
    assert_eq!(out, vec![7; 20]);
    // 10 frames at 1000 Hz = 10ms, middle at 5ms past 1s
    assert_eq!(clock.time_at(0), 1_005_000);
}

#[test]
fn audio_worker_decisions() {
    let mut cache = AudioCache::default();
    assert_eq!(audio_worker_action(&cache, true), AudioWorkerAction::Decode { buffering: true });
    assert_eq!(audio_worker_action(&cache, false), AudioWorkerAction::Decode { buffering: false });
    // Half a second of stereo audio at 48 kHz: refill, not starving.
    cache.push(AudioSample::new(0, vec![0; 48_000], 48000));
    assert_eq!(audio_worker_action(&cache, true), AudioWorkerAction::Decode { buffering: false });
    // One and a half seconds: healthy.
    cache.push(AudioSample::new(500_000, vec![0; 96_000], 48000));
    assert_eq!(audio_worker_action(&cache, true), AudioWorkerAction::Wait);
}
