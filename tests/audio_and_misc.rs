use stream_audio::android_audio::{
    check_sl_result, decimal_string, sl_result_to_str, PlayState, SampleFormat, SampleRate, Settings, SlError,
};
use stream_audio::error::{Error, ErrorRepr};
use stream_audio::interval_measure::IntervalMeasure;
use stream_audio::notify::NotifyThrottle;
use stream_audio::rust_greeting;

#[test]
fn greeting_names_the_addressee() {
    assert_eq!(rust_greeting("World"), "Hello World. How are you?");
}

#[test]
fn result_codes_have_names() {
    assert_eq!(sl_result_to_str(0), "success");
    assert_eq!(sl_result_to_str(6), "io_error");
    assert_eq!(sl_result_to_str(16), "control_lost");
    assert_eq!(sl_result_to_str(1234), "unknown error code: 1234");
}

#[test]
fn sl_error_messages() {
    assert_eq!(
        SlError::new_sl(2, String::from("calling Realize")).to_string(),
        "OpenSLES error: parameter_invalid during calling Realize"
    );
    assert_eq!(SlError::new_sl(3, String::new()).to_string(), "OpenSLES error: memory_failure");
    assert_eq!(
        SlError::new_unknown_method(String::from("Enqueue")).to_string(),
        "OpenSLES method Enqueue is not defined"
    );
}

#[test]
fn check_sl_result_keeps_code() {
    assert!(check_sl_result(0, String::from("x")).is_ok());
    let e: Error = check_sl_result(4, String::from("engine creation")).unwrap_err().into();
    assert!(matches!(*e.repr, ErrorRepr::SlError(_)));
    assert_eq!(e.to_string(), "OpenSLES error: resource_error during engine creation");
}

#[test]
fn play_state_round_trip() {
    for s in [PlayState::Stopped, PlayState::Paused, PlayState::Playing] {
        assert_eq!(PlayState::from_raw(s.to_raw()).unwrap(), s);
    }
    assert_eq!(PlayState::Playing.to_raw(), 3);
}

#[test]
fn unknown_play_state_is_wrong_argument() {
    match PlayState::from_raw(7) {
        Err(e) => assert_eq!(e.to_string(), "Wrong argument: Unknown raw state value: 7"),
        Ok(_) => panic!("state 7 was accepted"),
    }
}

#[test]
fn format_conversions() {
    assert_eq!(SampleRate::Rate44100.to_raw(), 44_100_000);
    assert_eq!(SampleRate::Rate48000.to_hz(), 48_000);
    assert_eq!(SampleFormat::S16LE.to_raw(), 16);
    assert_eq!(SampleFormat::S32LE.get_sample_size(), 4);
    assert_eq!(SampleFormat::U8LE.to_raw_endian(), 2);
}

#[test]
fn frame_duration_range() {
    let s = Settings { rate: SampleRate::Rate48000, format: SampleFormat::S16LE };
    // 960 samples at 48000 Hz: 20 ms.
    assert_eq!(s.calc_pkt_duration(3840), Some(20_000));
    // 2048 samples at 48000 Hz: 42666 us.
    assert_eq!(s.calc_pkt_duration(8192), Some(42_666));
    assert_eq!(s.calc_pkt_duration(100), None);
    assert_eq!(s.calc_pkt_duration(usize::MAX), None);
}

#[test]
fn error_messages() {
    assert_eq!(Error::new_wrong_state(String::from("Player object is not created")).to_string(),
        "Wrong state: Player object is not created");
    assert_eq!(Error::new_null_ptr(String::from("object is null")).to_string(), "Null Pointer: object is null");
    assert!(Error::new_null_ptr(String::new()).is_null_ptr());
    assert!(!Error::new_wrong_state(String::new()).is_null_ptr());
    assert_eq!(Error::new_io(String::from("denied"), String::from("a.txt")).to_string(), "denied. File name: a.txt");
    assert_eq!(Error::new_io(String::from("denied"), String::new()).to_string(), "denied");
    assert_eq!(Error::new_net_parse(String::from("invalid socket address syntax"), String::from("x:y")).to_string(),
        "invalid socket address syntax of x:y");
}

#[test]
fn interval_measure_tracks_min_max_avg() {
    let mut m = IntervalMeasure::new();
    assert!(!m.new_event(1_000));
    assert!(m.new_event(21_000));
    assert_eq!(m.get_min_interval(), 20_000);
    assert_eq!(m.get_max_interval(), 20_000);
    assert!(m.new_event(31_000));
    assert_eq!(m.get_min_interval(), 10_000);
    assert!(!m.new_event(46_000));
    assert_eq!(m.get_avg_interval(), 15_000);
    assert_eq!(m.get_max_interval(), 20_000);
}

#[test]
fn interval_measure_starts_empty() {
    let m = IntervalMeasure::new();
    assert_eq!(m.get_avg_interval(), 0);
    assert_eq!(m.get_max_interval(), 0);
}

#[test]
fn delay_notifications_are_spaced_out() {
    let mut t = NotifyThrottle::new();
    assert!(t.should_notify_buffer_size_changed(1_000_000));
    assert!(!t.should_notify_buffer_size_changed(1_200_000));
    assert!(!t.should_notify_buffer_size_changed(1_499_999));
    assert!(t.should_notify_buffer_size_changed(1_500_000));
    assert!(!t.should_notify_buffer_size_changed(1_900_000));
}

#[test]
fn decimal_strings() {
    assert_eq!(decimal_string(0), "0");
    assert_eq!(decimal_string(7), "7");
    assert_eq!(decimal_string(1204), "1204");
    assert_eq!(decimal_string(u32::MAX), "4294967295");
}
