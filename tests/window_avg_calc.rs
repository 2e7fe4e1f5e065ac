use stream_audio::error::ErrorRepr;
use stream_audio::window_avg_calc::WindowAvgCalc;

#[test]
fn zero_window_is_rejected() {
    match WindowAvgCalc::new(0) {
        Err(e) => {
            assert!(matches!(*e.repr, ErrorRepr::WrongArgument(_)));
            assert_eq!(e.to_string(), "Wrong argument: Window size must be greater than 0");
        }
        Ok(_) => panic!("a zero-sized window was accepted"),
    }
}

#[test]
fn empty_window_averages_zero() {
    let calc = WindowAvgCalc::new(4).unwrap();
    assert_eq!(calc.get_avg(), 0);
}

#[test]
fn average_of_fewer_than_window() {
    let mut calc = WindowAvgCalc::new(5).unwrap();
    calc.push(10);
    calc.push(20);
    calc.push(30);
    assert_eq!(calc.get_avg(), 20);
}

#[test]
fn average_rounds_down() {
    let mut calc = WindowAvgCalc::new(5).unwrap();
    calc.push(1);
    calc.push(2);
    assert_eq!(calc.get_avg(), 1);
}

#[test]
fn average_keeps_most_recent_window() {
    let mut calc = WindowAvgCalc::new(3).unwrap();
    for v in 1..=5u64 {
        calc.push(v);
    }
    assert_eq!(calc.get_avg(), 4);
}

#[test]
fn large_samples_do_not_overflow() {
    let mut calc = WindowAvgCalc::new(2).unwrap();
    calc.push(u64::MAX);
    calc.push(u64::MAX);
    calc.push(u64::MAX);
    assert_eq!(calc.get_avg(), u64::MAX);
}

#[test]
fn set_to_overrides_until_next_push() {
    let mut calc = WindowAvgCalc::new(3).unwrap();
    calc.push(10);
    calc.set_to(100);
    assert_eq!(calc.get_avg(), 100);
    calc.push(20);
    assert_eq!(calc.get_avg(), 15);
}
