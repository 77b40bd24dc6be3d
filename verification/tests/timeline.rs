use grizld::timeline::audio::{AudioBuffer, AudioBufferConfig, AudioBufferResult, AudioFrame};
use grizld::timeline::clock::{AudioClock, Clock};
use grizld::timeline::double::DoubleFrameBuffer;
use grizld::timeline::frame::{ExtractedFrame, FrameData, Microseconds, TimebaseUnits, VideoFrame};
use grizld::timeline::history::{BufferConfig, BufferError, FrameBuffer};
use grizld::timeline::output::{classify_block, fill_from_buffer, BlockUse};

fn frame(pts: i64) -> VideoFrame {
    VideoFrame {
        pts: Microseconds(pts),
        extracted_frame: ExtractedFrame::new(TimebaseUnits(pts), 2, 2, FrameData::new_rgba(vec![0; 16])),
    }
}

fn stereo_48k(max_duration_micros: u64) -> AudioBufferConfig {
    AudioBufferConfig { max_duration_micros, sample_rate: 48000, channels: 2 }
}

fn block(pts: i64, first: u32, len: u32) -> AudioFrame {
    AudioFrame::new(Microseconds(pts), (first..first + len).collect(), 48000, 2)
}

#[test]
fn frame_history_orders_ahead_and_steps_back() {
    let mut buffer = FrameBuffer::new(BufferConfig { frames_capacity: 3 });
    buffer.push(frame(200)).unwrap();
    buffer.push(frame(0)).unwrap();
    buffer.push(frame(100)).unwrap();
    assert_eq!(buffer.push(frame(300)), Err(BufferError::Full));
    assert_eq!(buffer.peek_next_pts(), Some(Microseconds(0)));

    assert_eq!(buffer.display().unwrap().pts, Microseconds(0));
    assert_eq!(buffer.display().unwrap().pts, Microseconds(100));
    assert_eq!(buffer.display().unwrap().pts, Microseconds(200));
    assert!(buffer.display().is_none());

    // Step back: the previous frame is shown next, then the current one.
    assert_eq!(buffer.restore_previous_frame(), Some(Microseconds(100)));
    assert_eq!(buffer.display().unwrap().pts, Microseconds(100));
    assert_eq!(buffer.display().unwrap().pts, Microseconds(200));
    assert_eq!(buffer.oldest_pts(), Some(Microseconds(0)));
}

#[test]
fn frame_history_displays_pushed_frames_in_order() {
    let mut buffer = FrameBuffer::new(BufferConfig { frames_capacity: 8 });
    let pushed = [500, 100, 400, 0, 300, 200];
    for pts in pushed {
        buffer.push(frame(pts)).unwrap();
    }
    let mut shown = Vec::new();
    for _ in 0..pushed.len() {
        shown.push(buffer.display().unwrap().pts.0);
    }
    assert_eq!(shown, vec![0, 100, 200, 300, 400, 500]);
    assert!(buffer.display().is_none());
    assert_eq!(buffer.oldest_pts(), Some(Microseconds(0)));
    assert_eq!(buffer.len(), pushed.len());
}

#[test]
fn stepping_back_needs_two_displayed_frames() {
    let mut buffer = FrameBuffer::new(BufferConfig::default());
    assert_eq!(buffer.restore_previous_frame(), None);
    buffer.push(frame(10)).unwrap();
    buffer.display().unwrap();
    assert_eq!(buffer.restore_previous_frame(), None);
    assert_eq!(buffer.oldest_pts(), Some(Microseconds(10)));
}

#[test]
fn audio_config_sizes() {
    let config = AudioBufferConfig::default();
    assert_eq!(config.max_duration_micros, 2_000_000);
    assert_eq!(config.max_samples(), 192_000);
    assert_eq!(stereo_48k(10_000).max_samples(), 960);
    let frame = block(0, 0, 960);
    assert_eq!(frame.num_samples(), 480);
    assert_eq!(frame.duration(), 10_000);
}

#[test]
fn audio_buffer_reads_across_frames_and_mid_frame() {
    let mut buffer = AudioBuffer::new(stereo_48k(1_000_000));
    assert!(buffer.pull_samples_with_pts(4).is_none());
    assert_eq!(buffer.try_push(block(0, 0, 8)), AudioBufferResult::Accepted);
    assert_eq!(buffer.try_push(block(1_000, 100, 8)), AudioBufferResult::Accepted);
    assert_eq!(buffer.frame_count(), 2);

    // Three stereo samples: six values from the first frame.
    let (samples, pts) = buffer.pull_samples_with_pts(3).unwrap();
    assert_eq!(samples, vec![0, 1, 2, 3, 4, 5]);
    assert_eq!(pts, Microseconds(0));
    // The next read starts mid-frame, three samples per channel in.
    assert_eq!(buffer.current_pts(), Some(Microseconds(62)));

    // Reading on crosses into the second frame.
    let (samples, pts) = buffer.pull_samples_with_pts(2).unwrap();
    assert_eq!(samples, vec![6, 7, 100, 101]);
    assert_eq!(pts, Microseconds(62));
    assert_eq!(buffer.frame_count(), 1);
    assert_eq!(buffer.next_pts(), Some(Microseconds(1_020)));

    // A long read takes what is left.
    let (samples, _) = buffer.pull_samples_with_pts(100).unwrap();
    assert_eq!(samples, vec![102, 103, 104, 105, 106, 107]);
    assert!(buffer.is_empty());
    assert!(buffer.pull_samples_with_pts(1).is_none());
}

#[test]
fn split_reads_equal_one_read() {
    let mut one = AudioBuffer::new(stereo_48k(1_000_000));
    let mut two = AudioBuffer::new(stereo_48k(1_000_000));
    for b in [&mut one, &mut two] {
        b.try_push(block(0, 0, 6));
        b.try_push(block(500, 6, 6));
    }
    let (all, _) = one.pull_samples_with_pts(5).unwrap();
    let (mut first, _) = two.pull_samples_with_pts(2).unwrap();
    let (second, _) = two.pull_samples_with_pts(3).unwrap();
    first.extend(second);
    assert_eq!(first, all);
    assert_eq!(one.pull_samples_with_pts(10).unwrap().0, two.pull_samples_with_pts(10).unwrap().0);
}

#[test]
fn audio_buffer_capacity_and_stats() {
    let mut buffer = AudioBuffer::new(stereo_48k(100)); // 9 samples
    assert_eq!(buffer.try_push(block(0, 0, 10)), AudioBufferResult::Full);
    assert_eq!(buffer.try_push(block(0, 0, 8)), AudioBufferResult::Accepted);
    assert_eq!(buffer.try_push(block(0, 0, 2)), AudioBufferResult::Full);
    assert!(!buffer.is_full());
    let stats = buffer.stats();
    assert_eq!(stats.frame_count, 1);
    assert_eq!(stats.total_samples, 8);
    assert_eq!(stats.buffered_duration, 83);
    assert!(!stats.is_empty);
    assert_eq!(buffer.buffered_duration(), 83);
    buffer.clear();
    assert!(buffer.is_empty());
    assert_eq!(buffer.stats().total_samples, 0);
}

#[test]
fn audio_buffer_takes_frames_without_channels_or_rate() {
    let mut buffer = AudioBuffer::new(stereo_48k(1_000_000));
    let silent_rate = AudioFrame::new(Microseconds(0), vec![1, 2, 3, 4], 0, 2);
    assert_eq!(buffer.try_push(silent_rate), AudioBufferResult::Accepted);
    let no_channels = AudioFrame::new(Microseconds(500), vec![5, 6], 48000, 0);
    assert_eq!(buffer.try_push(no_channels), AudioBufferResult::Accepted);
    assert_eq!(buffer.frame_count(), 2);
    // At a rate of zero the first sample is at the frame's own timestamp,
    // and any later one at the end of time.
    assert_eq!(buffer.current_pts(), Some(Microseconds(0)));
    let (samples, pts) = buffer.pull_samples_with_pts(1).unwrap();
    assert_eq!(samples, vec![1, 2]);
    assert_eq!(pts, Microseconds(0));
    assert_eq!(buffer.current_pts(), Some(Microseconds(i64::MAX)));
}

#[test]
fn zero_rate_frame_lasts_without_end() {
    assert_eq!(AudioFrame::new(Microseconds(0), vec![1, 2], 0, 2).duration(), i64::MAX);
    assert_eq!(AudioFrame::new(Microseconds(0), vec![], 0, 2).duration(), 0);
}

#[test]
fn block_classification() {
    // 960 interleaved stereo samples at 48 kHz last 10 ms.
    assert_eq!(classify_block(Microseconds(0), 960, Microseconds(20_000), 2, 48000), BlockUse::Skip);
    assert_eq!(classify_block(Microseconds(0), 960, Microseconds(10_000), 2, 48000), BlockUse::Trim(960));
    assert_eq!(classify_block(Microseconds(0), 960, Microseconds(5_000), 2, 48000), BlockUse::Trim(480));
    assert_eq!(classify_block(Microseconds(0), 960, Microseconds(0), 2, 48000), BlockUse::Use);
    assert_eq!(classify_block(Microseconds(7_000), 960, Microseconds(5_000), 2, 48000), BlockUse::Use);
}

fn running_clock(at: i64) -> AudioClock {
    let mut clock = AudioClock::new();
    clock.resume();
    clock.update_pts(Microseconds(at));
    clock
}

#[test]
fn paused_output_is_silence() {
    let mut buffer = AudioBuffer::new(stereo_48k(1_000_000));
    buffer.try_push(block(0, 1, 8));
    let mut clock = AudioClock::new();
    assert_eq!(fill_from_buffer(&mut buffer, &mut clock, 4, 2, 48000), vec![0; 4]);
    assert_eq!(buffer.stats().total_samples, 8);
    assert_eq!(clock.time(), Microseconds(0));
}

#[test]
fn output_plays_current_block_and_moves_clock() {
    let mut buffer = AudioBuffer::new(stereo_48k(1_000_000));
    buffer.try_push(block(0, 1, 4));
    let mut clock = running_clock(0);
    // Six values asked for, four held: padded with silence.
    assert_eq!(fill_from_buffer(&mut buffer, &mut clock, 6, 2, 48000), vec![1, 2, 3, 4, 0, 0]);
    assert_eq!(clock.time(), Microseconds(0));
    assert!(buffer.is_empty());
}

#[test]
fn output_skips_blocks_the_clock_has_passed() {
    let mut buffer = AudioBuffer::new(stereo_48k(10_000_000));
    // Two blocks of 960 values (10 ms each), then one starting at 1 s.
    buffer.try_push(AudioFrame::new(Microseconds(0), vec![7; 960], 48000, 2));
    buffer.try_push(AudioFrame::new(Microseconds(10_000), vec![8; 960], 48000, 2));
    buffer.try_push(AudioFrame::new(Microseconds(1_000_000), (0..960).collect(), 48000, 2));
    let mut clock = running_clock(500_000);
    let out = fill_from_buffer(&mut buffer, &mut clock, 960, 2, 48000);
    assert_eq!(out, (0..960).collect::<Vec<u32>>());
    assert_eq!(clock.time(), Microseconds(1_000_000));
    assert!(buffer.is_empty());
}

#[test]
fn output_trims_a_block_that_straddles_the_clock() {
    let mut buffer = AudioBuffer::new(stereo_48k(10_000_000));
    buffer.try_push(AudioFrame::new(Microseconds(0), (0..960).collect(), 48000, 2));
    let mut clock = running_clock(5_000);
    let out = fill_from_buffer(&mut buffer, &mut clock, 960, 2, 48000);
    // 5 ms of 48 kHz stereo is 480 values: the rest plays, then silence.
    let mut expected: Vec<u32> = (480..960).collect();
    expected.extend(vec![0; 480]);
    assert_eq!(out, expected);
    assert_eq!(clock.time(), Microseconds(5_000));
}

#[test]
fn output_underrun_keeps_clock() {
    let mut buffer = AudioBuffer::new(stereo_48k(1_000_000));
    buffer.try_push(AudioFrame::new(Microseconds(0), vec![5; 96], 48000, 2));
    let mut clock = running_clock(900_000);
    assert_eq!(fill_from_buffer(&mut buffer, &mut clock, 8, 2, 48000), vec![0; 8]);
    assert_eq!(clock.time(), Microseconds(900_000));
    assert!(buffer.is_empty());
}

#[test]
fn double_buffer_reads_earliest_first_and_swaps() {
    let mut buffer = DoubleFrameBuffer::with_capacity(4);
    buffer.push_frame(frame(20));
    buffer.push_frame(frame(10));
    buffer.push_frame(frame(30));
    assert_eq!(buffer.pending_frame_count(), 3);
    assert_eq!(buffer.total_frame_count(), 3);
    assert!(buffer.is_read_buffer_empty());
    assert_eq!(buffer.peek_next_pts(), Some(Microseconds(10)));

    // The read side is empty: the sides swap, then the earliest comes out.
    assert_eq!(buffer.get_next_frame().unwrap().pts, Microseconds(10));
    assert_eq!(buffer.pending_frame_count(), 0);
    assert!(!buffer.is_read_buffer_empty());

    buffer.push_frame(frame(50));
    buffer.push_frame(frame(40));
    assert!(buffer.is_full());
    // The read side is served first.
    assert_eq!(buffer.get_next_frame().unwrap().pts, Microseconds(20));
    assert_eq!(buffer.get_next_frame().unwrap().pts, Microseconds(30));
    assert_eq!(buffer.get_next_frame().unwrap().pts, Microseconds(40));
    assert_eq!(buffer.get_next_frame().unwrap().pts, Microseconds(50));
    assert!(buffer.get_next_frame().is_none());
    assert_eq!(buffer.total_frame_count(), 0);
}

#[test]
fn double_buffer_gives_frames_in_timestamp_order() {
    let mut buffer = DoubleFrameBuffer::with_capacity(10);
    buffer.push_frame(frame(1));
    buffer.push_frame(frame(3));
    buffer.push_frame(frame(2));
    assert_eq!(buffer.peek_next_pts(), Some(Microseconds(1)));
    assert_eq!(buffer.get_next_frame().unwrap().pts, Microseconds(1));
    assert_eq!(buffer.get_next_frame().unwrap().pts, Microseconds(2));
    assert_eq!(buffer.get_next_frame().unwrap().pts, Microseconds(3));
    assert!(buffer.get_next_frame().is_none());
}

#[test]
fn double_buffer_waits_for_the_time() {
    let mut buffer = DoubleFrameBuffer::new();
    buffer.push_frame(frame(1_000));
    assert!(buffer.get_next_frame_if_ready(Microseconds(999)).is_none());
    assert_eq!(buffer.total_frame_count(), 1);
    assert_eq!(buffer.get_next_frame_if_ready(Microseconds(1_000)).unwrap().pts, Microseconds(1_000));
    buffer.push_frame(frame(5));
    buffer.clear();
    assert_eq!(buffer.total_frame_count(), 0);
    assert_eq!(buffer.peek_next_pts(), None);
}

#[test]
fn audio_buffer_push_when_there_is_room() {
    let mut buffer = AudioBuffer::new(stereo_48k(1_000_000));
    buffer.push(block(0, 0, 4));
    buffer.push(block(42, 4, 4));
    assert_eq!(buffer.frame_count(), 2);
    let (samples, pts) = buffer.pull_samples_with_pts(4).unwrap();
    assert_eq!(samples, (0..8).collect::<Vec<u32>>());
    assert_eq!(pts, Microseconds(0));
}
