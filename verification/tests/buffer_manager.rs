use grizld::buffer_manager::{SwitchPlan, VideoBuffer, VideoBufferManager};
use grizld::types::PlaybackState;

#[test]
fn buffers_open_switch_and_cycle() {
    let mut m: VideoBufferManager<&str> = VideoBufferManager::new();
    assert!(!m.has_buffers());
    assert_eq!(m.next_buffer(false).err().unwrap(), "No buffers open");
    assert_eq!(m.open("a.mp4".to_string(), Ok("A")), Ok(1));
    assert_eq!(m.open("b.mp4".to_string(), Ok("B")), Ok(2));
    assert_eq!(m.open("c.mp4".to_string(), Err("boom".to_string())).err().unwrap(), "Failed to open video: boom");
    assert_eq!(m.open("c.mp4".to_string(), Ok("C")), Ok(3));
    assert_eq!(m.active_buffer_id(), Some(3));
    assert_eq!(m.active_buffer().unwrap().player, "C");
    let state_of = |p: &&str| if *p == "C" { PlaybackState::Playing } else { PlaybackState::Paused };
    assert_eq!(
        m.list_buffers(state_of),
        vec![
            (1, "a.mp4".to_string(), "paused".to_string(), false),
            (2, "b.mp4".to_string(), "paused".to_string(), false),
            (3, "c.mp4".to_string(), "playing".to_string(), true),
        ]
    );

    // Switching away from a playing buffer records that it was playing
    let plan = m.switch_to(1, true).unwrap();
    assert_eq!(plan, SwitchPlan { pause: Some(3), play: None });
    let plan = m.switch_to(3, false).unwrap();
    assert_eq!(plan, SwitchPlan { pause: Some(1), play: Some(3) });
    assert_eq!(m.switch_to(3, false).unwrap(), SwitchPlan { pause: None, play: None });
    assert_eq!(m.switch_to(9, false).err().unwrap(), "Buffer 9 does not exist");

    m.next_buffer(false).unwrap();
    assert_eq!(m.active_buffer_id(), Some(1));
    m.prev_buffer(false).unwrap();
    assert_eq!(m.active_buffer_id(), Some(3));
    m.prev_buffer(false).unwrap();
    assert_eq!(m.active_buffer_id(), Some(2));
}

#[test]
fn deleting_buffers() {
    let mut m: VideoBufferManager<u8> = VideoBufferManager::new();
    m.open("x".to_string(), Ok(10)).unwrap();
    m.open("y".to_string(), Ok(20)).unwrap();
    assert_eq!(m.delete(5, false).err().unwrap(), "Buffer 5 does not exist");
    let (plan, removed) = m.delete(2, false).unwrap();
    assert_eq!(removed.player, 20);
    assert_eq!(removed.file_path, "y");
    assert_eq!(plan.pause, Some(2));
    assert_eq!(m.active_buffer_id(), Some(1));
    let (_, removed) = m.delete(1, false).unwrap();
    assert_eq!(removed.id, 1);
    assert_eq!(m.active_buffer_id(), None);
    assert!(!m.has_buffers());
    assert!(m.active_buffer().is_none());
}

#[test]
fn next_and_prev_undo_each_other() {
    let mut m: VideoBufferManager<u8> = VideoBufferManager::new();
    for p in 0..4u8 {
        m.open(format!("v{}.mp4", p), Ok(p)).unwrap();
    }
    assert_eq!(m.next_buffer_id(), 5);
    for start in 1..=4usize {
        m.switch_to(start, false).unwrap();
        m.next_buffer(true).unwrap();
        m.prev_buffer(false).unwrap();
        assert_eq!(m.active_buffer_id(), Some(start));
        m.prev_buffer(false).unwrap();
        m.next_buffer(false).unwrap();
        assert_eq!(m.active_buffer_id(), Some(start));
    }
    assert_eq!(m.buffer(2).unwrap().file_path, "v1.mp4");
    assert!(m.buffer(7).is_none());
}

#[test]
fn buffer_names_come_from_the_path() {
    assert_eq!(VideoBuffer::new(1, "/videos/clip.mov".to_string(), ()).file_name(), "clip.mov");
    assert_eq!(VideoBuffer::new(2, "relative/dir/a b.mp4".to_string(), ()).file_name(), "a b.mp4");
    assert_eq!(VideoBuffer::new(3, "".to_string(), ()).file_name(), "untitled");
    assert_eq!(VideoBuffer::new(4, "/".to_string(), ()).file_name(), "untitled");
    assert_eq!(VideoBuffer::new(5, "movies/..".to_string(), ()).file_name(), "untitled");
}

#[test]
fn listing_names_every_state() {
    let mut m: VideoBufferManager<PlaybackState> = VideoBufferManager::new();
    m.open("/tmp/one.mp4".to_string(), Ok(PlaybackState::Stopped)).unwrap();
    m.open("".to_string(), Ok(PlaybackState::Paused)).unwrap();
    m.open("x/three.mkv".to_string(), Ok(PlaybackState::Playing)).unwrap();
    m.switch_to(2, false).unwrap();
    assert_eq!(
        m.list_buffers(|p: &PlaybackState| *p),
        vec![
            (1, "one.mp4".to_string(), "stopped".to_string(), false),
            (2, "untitled".to_string(), "paused".to_string(), true),
            (3, "three.mkv".to_string(), "playing".to_string(), false),
        ]
    );
    assert_eq!(PlaybackState::Paused.name(), "paused");
}

#[test]
fn cycling_and_deleting_plan_the_players() {
    let mut m: VideoBufferManager<u8> = VideoBufferManager::new();
    for p in 0..3u8 {
        m.open(format!("v{}.mp4", p), Ok(p)).unwrap();
    }
    // Buffer 3 is active and playing: cycling pauses it and remembers that.
    assert_eq!(m.next_buffer(true).unwrap(), SwitchPlan { pause: Some(3), play: None });
    assert_eq!(m.active_buffer_id(), Some(1));
    assert!(m.buffer(3).unwrap().was_playing);
    // Going back resumes buffer 3, since it was playing when left.
    assert_eq!(m.prev_buffer(false).unwrap(), SwitchPlan { pause: Some(1), play: Some(3) });
    assert!(!m.buffer(1).unwrap().was_playing);
    // Deleting the active buffer switches to the first other one.
    m.switch_to(2, false).unwrap();
    m.switch_to(3, true).unwrap();
    let (plan, removed) = m.delete(3, true).unwrap();
    assert_eq!(plan, SwitchPlan { pause: Some(3), play: None });
    assert_eq!(removed.file_path, "v2.mp4");
    assert_eq!(m.active_buffer_id(), Some(1));
    assert!(m.buffer(2).unwrap().was_playing);
    // Deleting a buffer that is not active plans nothing.
    let (plan, _) = m.delete(2, false).unwrap();
    assert_eq!(plan, SwitchPlan { pause: None, play: None });
    // With none left, cycling is refused and nothing changes.
    m.delete(1, false).unwrap();
    assert_eq!(m.next_buffer(false).err().unwrap(), "No buffers open");
    assert_eq!(m.next_buffer_id(), 4);
}
