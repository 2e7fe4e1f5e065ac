use stream_audio::android_audio::{SampleFormat, SampleRate, Settings};
use stream_audio::output_buffer::{OutputBuffer, PostWriteAction, JITTER_BUFFER_LEN};
use stream_audio::pkt_decoder::Pkt;

fn settings() -> Settings {
    Settings { rate: SampleRate::Rate44100, format: SampleFormat::S16LE }
}

fn write(buf: &mut OutputBuffer, cnt: u32, payload: &[u8], now: u64) -> PostWriteAction {
    buf.write(&Pkt::new_borrower(cnt, payload), now)
}

fn read(buf: &mut OutputBuffer, now: u64) -> Option<Vec<u8>> {
    let mut out = Vec::new();
    if buf.read(&mut out, now) {
        Some(out)
    } else {
        None
    }
}

#[test]
fn first_write_asks_for_read() {
    let mut buf = OutputBuffer::new(settings());
    assert_eq!(write(&mut buf, 1, &[1], 0), PostWriteAction::Read);
    assert_eq!(write(&mut buf, 2, &[2], 0), PostWriteAction::Nothing);
}

#[test]
fn read_on_fresh_buffer_reports_no_data() {
    let mut buf = OutputBuffer::new(settings());
    let mut out = vec![7u8];
    assert!(!buf.read(&mut out, 0));
    assert_eq!(out, vec![7u8]);
    // The first packet ever written still asks for a read.
    assert_eq!(write(&mut buf, 1, &[1], 0), PostWriteAction::Read);
    assert_eq!(write(&mut buf, 2, &[2], 0), PostWriteAction::Nothing);
}

#[test]
fn late_write_after_queue_drained_is_ignored() {
    let mut buf = OutputBuffer::new(settings());
    let _ = write(&mut buf, 5, &[5], 0);
    assert_eq!(read(&mut buf, 0), Some(vec![5]));
    assert_eq!(buf.len(), 0);
    assert_eq!(write(&mut buf, 3, &[3], 0), PostWriteAction::Nothing);
    assert_eq!(write(&mut buf, 5, &[5], 0), PostWriteAction::Nothing);
    assert_eq!(buf.len(), 0);
    let _ = write(&mut buf, 6, &[6], 0);
    assert_eq!(buf.len(), 1);
}

#[test]
fn frames_dropped_by_decrease_delay_are_not_accepted_again() {
    let mut buf = OutputBuffer::new(settings());
    assert!(buf.record_decoded_len(4096));
    for cnt in 1..=3u32 {
        let _ = write(&mut buf, cnt, &[cnt as u8], 0);
    }
    let _ = buf.decrease_delay();
    assert_eq!(buf.len(), 1);
    let _ = write(&mut buf, 2, &[2], 0);
    assert_eq!(buf.len(), 1);
    assert_eq!(read(&mut buf, 0), Some(vec![3]));
}

#[test]
fn next_read_is_fresh_only_for_real_front_frame() {
    let mut buf = OutputBuffer::new(settings());
    assert!(!buf.next_read_is_fresh());
    let _ = write(&mut buf, 1, &[1], 0);
    let _ = write(&mut buf, 3, &[3], 0);
    assert!(buf.next_read_is_fresh());
    let _ = read(&mut buf, 0);
    assert!(!buf.next_read_is_fresh());
    let _ = read(&mut buf, 0);
    assert!(buf.next_read_is_fresh());
}

#[test]
fn gap_is_filled_with_repeat_of_last_good() {
    let mut buf = OutputBuffer::new(settings());
    for cnt in [1u32, 2, 4, 5] {
        let _ = write(&mut buf, cnt, &[cnt as u8, 0xaa], 0);
    }
    assert_eq!(buf.len(), 5);
    assert_eq!(read(&mut buf, 0), Some(vec![1, 0xaa]));
    assert_eq!(read(&mut buf, 0), Some(vec![2, 0xaa]));
    assert_eq!(read(&mut buf, 0), Some(vec![2, 0xaa]));
    assert_eq!(read(&mut buf, 0), Some(vec![4, 0xaa]));
    assert_eq!(read(&mut buf, 0), Some(vec![5, 0xaa]));
    assert_eq!(buf.get_total_missing(), 1);
}

#[test]
fn late_real_frame_replaces_placeholder() {
    let mut buf = OutputBuffer::new(settings());
    let _ = write(&mut buf, 1, &[1], 0);
    let _ = write(&mut buf, 3, &[3], 0);
    let _ = write(&mut buf, 2, &[2], 0);
    assert_eq!(read(&mut buf, 0), Some(vec![1]));
    assert_eq!(read(&mut buf, 0), Some(vec![2]));
    assert_eq!(read(&mut buf, 0), Some(vec![3]));
    assert_eq!(buf.get_total_missing(), 0);
}

#[test]
fn duplicate_write_is_ignored() {
    let mut buf = OutputBuffer::new(settings());
    let _ = write(&mut buf, 1, &[1], 0);
    let _ = write(&mut buf, 2, &[2], 0);
    let _ = write(&mut buf, 1, &[9, 9], 0);
    assert_eq!(buf.len(), 2);
    assert_eq!(read(&mut buf, 0), Some(vec![1]));
    assert_eq!(read(&mut buf, 0), Some(vec![2]));
}

#[test]
fn late_write_below_front_is_ignored() {
    let mut buf = OutputBuffer::new(settings());
    let _ = write(&mut buf, 10, &[10], 0);
    let _ = write(&mut buf, 11, &[11], 0);
    let _ = write(&mut buf, 9, &[9], 0);
    assert_eq!(buf.len(), 2);
    assert_eq!(read(&mut buf, 0), Some(vec![10]));
}

#[test]
fn placeholder_write_does_not_replace_real_data() {
    let mut buf = OutputBuffer::new(settings());
    let _ = write(&mut buf, 1, &[1], 0);
    let _ = write(&mut buf, 2, &[2], 0);
    let _ = buf.write(&Pkt::new_empty(1), 0);
    assert_eq!(read(&mut buf, 0), Some(vec![1]));
    assert_eq!(buf.get_total_missing(), 0);
}

#[test]
fn consecutive_placeholder_reads_count_missing() {
    let mut buf = OutputBuffer::new(settings());
    let _ = write(&mut buf, 1, &[1], 0);
    let _ = write(&mut buf, 5, &[5], 0);
    assert_eq!(read(&mut buf, 0), Some(vec![1]));
    for _ in 0..3 {
        assert_eq!(read(&mut buf, 0), Some(vec![1]));
    }
    assert_eq!(buf.get_total_missing(), 3);
    assert_eq!(read(&mut buf, 0), Some(vec![5]));
}

#[test]
fn placeholder_read_without_last_played_gives_nothing() {
    let mut buf = OutputBuffer::new(settings());
    let _ = buf.write(&Pkt::new_empty(4), 0);
    let mut out = vec![1u8, 2];
    assert!(!buf.read(&mut out, 0));
    assert_eq!(out, vec![1u8, 2]);
    assert_eq!(buf.get_total_missing(), 1);
}

#[test]
fn underrun_holds_until_buffer_refills() {
    let mut buf = OutputBuffer::new(settings());
    let _ = write(&mut buf, 1, &[1], 0);
    assert_eq!(read(&mut buf, 0), Some(vec![1]));
    // Queue is empty: hold, repeating the last frame.
    assert_eq!(read(&mut buf, 0), Some(vec![1]));
    for cnt in 2..(2 + JITTER_BUFFER_LEN as u32 - 1) {
        let _ = write(&mut buf, cnt, &[cnt as u8], 0);
        assert_eq!(read(&mut buf, 0), Some(vec![1]));
    }
    let _ = write(&mut buf, 4, &[4], 0);
    assert_eq!(read(&mut buf, 0), Some(vec![2]));
    assert_eq!(read(&mut buf, 0), Some(vec![3]));
    assert_eq!(read(&mut buf, 0), Some(vec![4]));
}

#[test]
fn delay_is_measured_from_arrival_to_read() {
    let mut buf = OutputBuffer::new(settings());
    assert_eq!(buf.get_avg_delay(), 0);
    let _ = write(&mut buf, 1, &[1], 1_000);
    let _ = write(&mut buf, 2, &[2], 2_000);
    let _ = read(&mut buf, 6_000);
    assert_eq!(buf.get_avg_delay(), 5_000);
    let _ = read(&mut buf, 9_000);
    assert_eq!(buf.get_avg_delay(), 6_000);
}

#[test]
fn delay_change_needs_frame_duration() {
    let mut buf = OutputBuffer::new(settings());
    let _ = write(&mut buf, 1, &[1], 0);
    let _ = read(&mut buf, 4_000);
    assert_eq!(buf.get_frame_duration(), None);
    assert_eq!(buf.increase_delay(), 4_000);
    assert_eq!(buf.decrease_delay(), 4_000);
    assert_eq!(buf.get_avg_delay(), 4_000);
}

#[test]
fn frame_duration_learned_from_first_decode() {
    let mut buf = OutputBuffer::new(settings());
    assert!(!buf.record_decoded_len(100));
    assert_eq!(buf.get_frame_duration(), None);
    // 4096 bytes of 16-bit stereo at 44100 Hz: 1024 samples, 23219 us.
    assert!(buf.record_decoded_len(4096));
    assert_eq!(buf.get_frame_duration(), Some(23_219));
    assert!(buf.record_decoded_len(8192));
    assert_eq!(buf.get_frame_duration(), Some(23_219));
}

#[test]
fn increase_delay_adds_whole_frames() {
    let mut buf = OutputBuffer::new(settings());
    assert!(buf.record_decoded_len(4096));
    // 50 ms hold two frames of 23219 us.
    assert_eq!(buf.increase_delay(), 46_438);
    assert_eq!(buf.get_avg_delay(), 46_438);
    let _ = write(&mut buf, 1, &[1], 0);
    // Held: two more writes before reads resume.
    let mut out = Vec::new();
    assert!(!buf.read(&mut out, 0));
    let _ = write(&mut buf, 2, &[2], 0);
    let _ = write(&mut buf, 3, &[3], 0);
    assert_eq!(read(&mut buf, 0), Some(vec![1]));
}

#[test]
fn increase_delay_with_dividing_frame_duration_reaches_full_step() {
    let mut buf = OutputBuffer::new(Settings { rate: SampleRate::Rate8000, format: SampleFormat::U8LE });
    // 400 bytes of 8-bit stereo at 8000 Hz: 200 samples, 25000 us.
    assert!(buf.record_decoded_len(400));
    assert_eq!(buf.get_frame_duration(), Some(25_000));
    assert_eq!(buf.increase_delay(), 50_000);
}

#[test]
fn decrease_delay_drops_frames_and_clamps_at_zero() {
    let mut buf = OutputBuffer::new(settings());
    assert!(buf.record_decoded_len(4096));
    for cnt in 1..=5u32 {
        let _ = write(&mut buf, cnt, &[cnt as u8], 0);
    }
    assert_eq!(buf.decrease_delay(), 0);
    assert_eq!(buf.len(), 3);
    assert_eq!(read(&mut buf, 0), Some(vec![3]));
}

#[test]
fn decrease_delay_lowers_by_dropped_frames() {
    let mut buf = OutputBuffer::new(settings());
    assert!(buf.record_decoded_len(4096));
    let _ = write(&mut buf, 1, &[1], 0);
    assert_eq!(buf.increase_delay(), 46_438);
    // Only one frame is queued: one is dropped.
    assert_eq!(buf.decrease_delay(), 46_438 - 23_219);
    assert_eq!(buf.len(), 0);
}

#[test]
fn fixed_delay_pins_reported_value() {
    let mut buf = OutputBuffer::new(settings());
    assert!(!buf.is_delay_fixed());
    buf.fix_delay_at(80_000);
    assert!(buf.is_delay_fixed());
    let _ = write(&mut buf, 1, &[1], 0);
    let _ = read(&mut buf, 5_000);
    assert_eq!(buf.get_avg_delay(), 80_000);
    buf.unfix_delay();
    assert!(!buf.is_delay_fixed());
    assert_eq!(buf.get_avg_delay(), 5_000);
}
