use grizld::cache::{AudioCache, FrameCache};
use grizld::types::{AudioSample, PixelFormat, VideoFrame};

fn frame(pts: i64) -> VideoFrame {
    VideoFrame::new(pts, vec![1, 2, 3], 1, 1, PixelFormat::Rgb24)
}

#[test]
fn frame_cache_request_is_idempotent() {
    let mut cache = FrameCache::new(8, 4);
    for pts in [40_000, 0, 20_000, 60_000] {
        cache.push(frame(pts));
    }
    let first = cache.request_frame(30_000).unwrap();
    assert_eq!(first.pts, 20_000);
    assert_eq!(cache.ahead_len(), 2);
    assert_eq!(cache.behind_len(), 2);
    let again = cache.request_frame(30_000).unwrap();
    assert_eq!(again.pts, 20_000);
    assert_eq!(cache.ahead_len(), 2);
    assert_eq!(cache.behind_len(), 2);
    let later = cache.request_frame(70_000).unwrap();
    assert_eq!(later.pts, 60_000);
    assert_eq!(cache.ahead_len(), 0);
    assert_eq!(cache.behind_len(), 4);
    // No more frames ahead: keep returning the current one
    assert_eq!(cache.request_frame(1_000_000).unwrap().pts, 60_000);
}

#[test]
fn frame_cache_before_everything_gives_nothing() {
    let mut cache = FrameCache::new(8, 4);
    cache.push(frame(100));
    assert!(cache.request_frame(50).is_none());
    assert_eq!(cache.ahead_len(), 1);
    assert_eq!(cache.next_ahead().unwrap().pts, 100);
    assert!(cache.latest_behind().is_none());
}

#[test]
fn frame_cache_shown_frame_is_not_returned_for_an_earlier_target() {
    let mut cache = FrameCache::new(4, 4);
    cache.push(frame(5_000_000));
    assert_eq!(cache.request_frame(5_000_000).unwrap().pts, 5_000_000);
    assert_eq!(cache.behind_len(), 1);
    assert!(cache.request_frame(1_000_000).is_none());
    assert_eq!(cache.behind_len(), 1);
    assert_eq!(cache.ahead_len(), 0);
}

#[test]
fn frame_cache_behind_is_hard_capped_and_pruned() {
    let mut cache = FrameCache::new(2, 2);
    for pts in [0, 1_000_000, 2_000_000, 3_000_000, 4_000_000] {
        cache.push(frame(pts));
    }
    assert!(cache.ahead_is_full());
    assert_eq!(cache.ahead_overflow_amount(), 3);
    assert_eq!(cache.frames_needed(), 0);
    assert_eq!(cache.request_frame(3_500_000).unwrap().pts, 3_000_000);
    assert_eq!(cache.behind_pts_range(), Some((2_000_000, 3_000_000)));
    assert_eq!(cache.ahead_pts_range(), Some((4_000_000, 4_000_000)));
    cache.prune_behind(4_500_000);
    assert_eq!(cache.behind_pts_range(), Some((3_000_000, 3_000_000)));
    assert_eq!(cache.get_behind_frame(3_100_000).unwrap().pts, 3_000_000);
    assert!(cache.get_behind_frame(100).is_none());
    assert_eq!(cache.len(), 2);
    cache.clear();
    assert!(cache.is_empty());
}

#[test]
fn audio_cache_moves_played_samples_behind() {
    let mut cache = AudioCache::new(1_000_000, 1_000, 1000);
    // behind capacity: 1ms at 1000 Hz stereo = 2 samples
    cache.push(AudioSample::new(7_000, vec![1, 2, 3, 4, 5, 6], 1000));
    assert_eq!(cache.current_pts(), 7_000);
    cache.push(AudioSample::new(9_000, vec![7, 8], 1000));
    assert_eq!(cache.current_pts(), 7_000);
    assert_eq!(cache.peek_ahead(3), vec![1, 2, 3]);
    let (out, pts, actual) = cache.pop(4);
    assert_eq!(out, vec![1, 2, 3, 4]);
    assert_eq!(pts, 7_000);
    assert_eq!(actual, 4);
    assert_eq!(cache.current_pts(), 9_000);
    assert_eq!(cache.peek_behind(5), vec![4, 3]);
    let (out, _, actual) = cache.pop(6);
    assert_eq!(out, vec![5, 6, 7, 8, 0, 0]);
    assert_eq!(actual, 4);
    assert_eq!(cache.ahead_len(), 0);
    assert_eq!(cache.behind_len(), 2);
    assert!(cache.needs_refill());
    assert!(cache.is_critically_low());
}

#[test]
fn audio_cache_durations() {
    let mut cache = AudioCache::default();
    assert_eq!(cache.ahead_capacity_duration(), 2_000_000);
    assert_eq!(cache.behind_capacity_duration(), 2_000_000);
    cache.push(AudioSample::new(0, vec![0; 96_000 * 2], 48000));
    assert_eq!(cache.ahead_duration(), 2_000_000);
    assert!(!cache.needs_refill());
    assert!(cache.ahead_is_full());
    assert!(cache.ahead_is_nearly_full());
    cache.reset(5);
    assert!(cache.is_empty());
    assert_eq!(cache.current_pts(), 5);
}
