use grizld::packet_queues::{PacketQueues, RefillStep};

#[test]
fn packets_go_to_their_stream() {
    let mut q: PacketQueues<&str> = PacketQueues::new(0, 1);
    assert!(q.needs_refill());
    assert_eq!(q.take_read(Some((0, "v1")), 1), RefillStep::ReadMore);
    assert_eq!(q.take_read(Some((1, "a1")), 2), RefillStep::ReadMore);
    assert_eq!(q.take_read(Some((2, "subtitle")), 3), RefillStep::ReadMore);
    assert_eq!(q.take_read(Some((0, "v2")), 4), RefillStep::ReadMore);
    assert_eq!(q.video_len(), 2);
    assert_eq!(q.audio_len(), 1);
    assert_eq!(q.pop_video(), Some("v1"));
    assert_eq!(q.pop_video(), Some("v2"));
    assert_eq!(q.pop_video(), None);
    assert_eq!(q.pop_audio(), Some("a1"));
    assert_eq!(q.pop_audio(), None);
}

#[test]
fn a_refill_reads_twenty_packets_at_most() {
    let mut q: PacketQueues<u32> = PacketQueues::new(0, 1);
    for n in 1..20 {
        assert_eq!(q.take_read(Some((0, n as u32)), n), RefillStep::ReadMore);
    }
    assert_eq!(q.take_read(Some((0, 20)), 20), RefillStep::Done);
    assert_eq!(q.video_len(), 20);
}

#[test]
fn full_queues_drop_packets_and_stop_asking() {
    let mut q: PacketQueues<u32> = PacketQueues::new(0, 1);
    for n in 0..60 {
        q.take_read(Some((0, n)), 1);
    }
    assert_eq!(q.video_len(), 50);
    // Audio is still low, so a refill is still due.
    assert!(q.needs_refill());
    for n in 0..25 {
        q.take_read(Some((1, n)), 1);
    }
    assert!(!q.needs_refill());
}

#[test]
fn the_end_of_the_input() {
    let mut q: PacketQueues<u32> = PacketQueues::new(0, 1);
    q.take_read(Some((0, 1)), 1);
    assert_eq!(q.take_read(None, 1), RefillStep::Done);
    assert!(!q.needs_refill());
    assert!(q.has_more());
    assert_eq!(q.pop_video(), Some(1));
    assert!(!q.has_more());
    // The decoder is flushed once, when the queues first run dry.
    assert!(!q.finish_input());
    q.clear_for_seek();
    assert!(q.has_more());
    assert!(q.finish_input());
    assert!(!q.finish_input());
}
