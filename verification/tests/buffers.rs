use grizld::buffer::{AudioBuffer, FrameBuffer};
use grizld::types::{AudioSample, PixelFormat, VideoFrame};

fn create_test_frame(pts: i64) -> VideoFrame {
    VideoFrame::new(pts, vec![0; 100], 10, 10, PixelFormat::Rgba)
}

fn bits(v: &[f32]) -> Vec<u32> {
    v.iter().map(|x| x.to_bits()).collect()
}

#[test]
fn test_audio_buffer_push_pop() {
    let mut buffer = AudioBuffer::new(1_000_000, 44100);

    // Push some samples
    let samples = bits(&[0.1, 0.2, 0.3, 0.4, 0.5, 0.6]); // 3 stereo frames
    let audio = AudioSample::new(0, samples.clone(), 44100);
    buffer.push(audio);

    assert_eq!(buffer.len(), 6);

    // Pop 4 samples
    let (popped, _pts, actual) = buffer.pop(4);
    assert_eq!(popped, bits(&[0.1, 0.2, 0.3, 0.4]));
    assert_eq!(actual, 4);
    assert_eq!(buffer.len(), 2);
}

#[test]
fn test_audio_buffer_underrun() {
    let mut buffer = AudioBuffer::new(1_000_000, 44100);

    // Request more samples than available (should fill with silence)
    let (popped, _pts, actual) = buffer.pop(100);
    assert_eq!(popped.len(), 100);
    assert_eq!(actual, 0); // No real samples
    assert!(popped.iter().all(|&s| f32::from_bits(s) == 0.0));
}

#[test]
fn test_frame_buffer_push_order() {
    let mut buffer = FrameBuffer::new(10);

    // Push frames out of order (simulating B-frames)
    buffer.push(create_test_frame(0));
    buffer.push(create_test_frame(40_000)); // Frame 1
    buffer.push(create_test_frame(20_000)); // B-frame (out of order)
    buffer.push(create_test_frame(60_000)); // Frame 2

    // Verify frames are in PTS order
    let frame1 = buffer.get_frame_at(10_000).unwrap();
    assert_eq!(frame1.pts, 0);

    let frame2 = buffer.get_frame_at(30_000).unwrap();
    assert_eq!(frame2.pts, 20_000);

    let frame3 = buffer.get_frame_at(50_000).unwrap();
    assert_eq!(frame3.pts, 40_000);
}

#[test]
fn test_frame_buffer_capacity() {
    let mut buffer = FrameBuffer::new(3);

    buffer.push(create_test_frame(0));
    buffer.push(create_test_frame(1_000_000));
    buffer.push(create_test_frame(2_000_000));
    buffer.push(create_test_frame(3_000_000));

    // Should only keep the last 3 frames
    assert_eq!(buffer.len(), 3);

    let (min, max) = buffer.pts_range().unwrap();
    assert_eq!(min, 1_000_000);
    assert_eq!(max, 3_000_000);
}

#[test]
fn frame_buffer_lookups_and_health() {
    let mut buffer = FrameBuffer::new(6);
    assert!(buffer.get_frame_at(0).is_none());
    assert!(buffer.get_frame_closest(0).is_none());
    assert!(buffer.needs_refill());
    assert_eq!(buffer.frames_needed(), 6);
    buffer.push(create_test_frame(500_000));
    buffer.push(create_test_frame(100_000));
    assert!(buffer.get_frame_at(50_000).is_none());
    assert_eq!(buffer.get_frame_closest(50_000).unwrap().pts, 100_000);
    assert_eq!(buffer.get_first().unwrap().pts, 100_000);
    assert_eq!(buffer.get_latest().unwrap().pts, 500_000);
    assert!(buffer.is_critically_low());
    assert_eq!(buffer.frames_needed(), 4);
    assert!(!buffer.is_full());
    assert_eq!(buffer.capacity(), 6);
}

#[test]
fn frame_buffer_remove_old_frames_keeps_one_before_current() {
    let mut buffer = FrameBuffer::new(10);
    for pts in [0, 1_000_000, 2_000_000, 5_000_000, 5_500_000, 9_000_000] {
        buffer.push(create_test_frame(pts));
    }
    // cutoff = 3s: frames 0, 1s and 2s are old, but 2s stays because the
    // next frame (5s) is not at or before the current position (4s).
    buffer.remove_old_frames(4_000_000);
    assert_eq!(buffer.pts_range().unwrap(), (2_000_000, 9_000_000));
    // At 6s, 2s is old and 5s is at or before 6s.
    buffer.remove_old_frames(6_000_000);
    assert_eq!(buffer.pts_range().unwrap(), (5_000_000, 9_000_000));
    buffer.clear();
    assert!(buffer.is_empty());
}

#[test]
fn audio_buffer_rejects_overflow_and_advances_pts() {
    // 10ms at 1000 Hz stereo = 20 samples
    let mut buffer = AudioBuffer::new(10_000, 1000);
    buffer.push(AudioSample::new(5_000, vec![1; 16], 1000));
    assert_eq!(buffer.current_pts(), 5_000);
    assert!(!buffer.is_nearly_full());
    // 8 more samples do not fit: rejected, PTS advances past them (4 frames = 4ms)
    buffer.push(AudioSample::new(100_000, vec![2; 8], 1000));
    assert_eq!(buffer.len(), 16);
    assert_eq!(buffer.current_pts(), 104_000);
    // Popping 6 samples (3 frames) advances by 3ms and returns the PTS before
    let (out, pts, actual) = buffer.pop(6);
    assert_eq!(out, vec![1; 6]);
    assert_eq!(pts, 104_000);
    assert_eq!(actual, 6);
    assert_eq!(buffer.current_pts(), 107_000);
    assert_eq!(buffer.buffered_duration(), 5_000);
    buffer.reset(42);
    assert!(buffer.is_empty());
    assert_eq!(buffer.current_pts(), 42);
}
