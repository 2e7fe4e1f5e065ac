use stream_audio::net_client::{Action, ControlToken, Event, PollLoop, State};

#[test]
fn control_tokens_are_ascii_words() {
    assert_eq!(ControlToken::Info.to_bytes(), b"info".to_vec());
    assert_eq!(ControlToken::Start.to_bytes(), b"start".to_vec());
    assert_eq!(ControlToken::Stop.to_bytes(), b"stop".to_vec());
}

#[test]
fn first_datagram_of_any_content_starts_playback() {
    let mut lp = PollLoop::new();
    assert_eq!(lp.get_state(), State::InfoRequested);
    assert!(matches!(lp.step(Event::Datagram(b"x")), Action::StartPlaying));
    assert_eq!(lp.get_state(), State::Started);
}

#[test]
fn started_loop_hands_packets_on() {
    let mut lp = PollLoop::new();
    let _ = lp.step(Event::Datagram(&[]));
    let datagram = [0u8, 0, 0, 3, 0xab];
    match lp.step(Event::Datagram(&datagram)) {
        Action::Enqueue(pkt) => {
            assert_eq!(pkt.cnt, 3);
            assert_eq!(pkt.len(), 1);
        }
        _ => panic!("the packet was not handed on"),
    }
}

#[test]
fn short_datagram_is_dropped_and_loop_goes_on() {
    let mut lp = PollLoop::new();
    let _ = lp.step(Event::Datagram(&[]));
    assert!(matches!(lp.step(Event::Datagram(&[1u8, 2])), Action::Discard(_)));
    assert_eq!(lp.get_state(), State::Started);
    assert!(matches!(lp.step(Event::Datagram(&[0u8, 0, 0, 1])), Action::Enqueue(_)));
}

#[test]
fn stop_signal_ends_loop_once() {
    let mut lp = PollLoop::new();
    let _ = lp.step(Event::Datagram(&[]));
    assert!(matches!(lp.step(Event::StopSignal(false)), Action::Wait));
    assert_eq!(lp.get_state(), State::Started);
    assert!(matches!(lp.step(Event::StopSignal(true)), Action::SendStopAndExit));
    assert_eq!(lp.get_state(), State::Stopped);
    assert!(matches!(lp.step(Event::StopSignal(true)), Action::Wait));
    assert!(matches!(lp.step(Event::Datagram(&[0u8, 0, 0, 1])), Action::Wait));
}

#[test]
fn stop_before_remote_answers() {
    let mut lp = PollLoop::new();
    assert!(matches!(lp.step(Event::StopSignal(true)), Action::SendStopAndExit));
    assert!(matches!(lp.step(Event::Datagram(b"ready")), Action::Wait));
}
