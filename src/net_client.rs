use crate::error::Error;
use crate::pkt_decoder::{be_u32, Pkt, PktDecoder, CNT_LEN};
use vstd::prelude::*;

verus! {

/// The control datagrams that the receiver sends to the remote.
#[derive(Debug, PartialEq, Eq, Structural, Clone, Copy)]
pub enum ControlToken {
    /// Asks the remote to start a session.
    Info,
    /// Tells the remote that playback has begun here.
    Start,
    /// Tells the remote that the receiver leaves; not acknowledged.
    Stop,
}

/// The ASCII text of each control datagram: `info`, `start` and `stop`.
pub open spec fn token_bytes(t: ControlToken) -> Seq<u8> {
    match t {
        ControlToken::Info => seq![105u8, 110, 102, 111],
        ControlToken::Start => seq![115u8, 116, 97, 114, 116],
        ControlToken::Stop => seq![115u8, 116, 111, 112],
    }
}

impl ControlToken {
    pub fn to_bytes(&self) -> (r: Vec<u8>)
        ensures
            r@ == token_bytes(*self),
    {
        let r = match self {
            ControlToken::Info => vec![105u8, 110, 102, 111],
            ControlToken::Start => vec![115u8, 116, 97, 114, 116],
            ControlToken::Stop => vec![115u8, 116, 111, 112],
        };
        assert(r@ =~= token_bytes(*self));
        r
    }
}

/// Where the session stands. The handshake only moves forward.
#[derive(Debug, PartialEq, Eq, Structural, Clone, Copy)]
pub enum State {
    /// `info` was sent; the first datagram back means the remote is ready.
    InfoRequested,
    /// Playback runs; each datagram is a media packet.
    Started,
    /// `stop` was sent and the loop has ended.
    Stopped,
}

/// What woke the receive loop.
pub enum Event<'a> {
    /// A datagram arrived.
    Datagram(&'a [u8]),
    /// The stop source fired; the value is that of the stop flag.
    StopSignal(bool),
}

/// What the receive loop does next.
pub enum Action<'a> {
    /// Start playback, then send `start` to the remote.
    StartPlaying,
    /// Hand the packet to the jitter buffer.
    Enqueue(Pkt<'a>),
    /// Drop a datagram that is no packet, and go on.
    Discard(Error),
    /// Send `stop` to the remote, then leave the loop.
    SendStopAndExit,
    /// Wait for the next event.
    Wait,
}

/// The decisions of the receive loop, apart from its socket and its waiting.
pub struct PollLoop {
    state: State,
    pkt_decoder: PktDecoder,
}

impl PollLoop {
    pub closed spec fn state(&self) -> State {
        self.state
    }

    /// A loop that has sent `info` and waits for the remote.
    pub fn new() -> (r: Self)
        ensures
            r.state() == State::InfoRequested,
    {
        PollLoop { state: State::InfoRequested, pkt_decoder: PktDecoder::new() }
    }

    pub fn get_state(&self) -> (r: State)
        ensures
            r == self.state(),
    {
        self.state
    }

    /// Decides what to do about `event`. While `info` is unanswered, any
    /// datagram, whatever it holds, starts playback. Once started, each
    /// datagram is parsed and handed on, and one that is too short is
    /// dropped without ending the loop. A stop signal with the flag set ends
    /// the loop, once; a spurious one is ignored.
    pub fn step<'a>(&mut self, event: Event<'a>) -> (r: Action<'a>)
        ensures
            old(self).state() == State::Stopped ==> {
                &&& r is Wait
                &&& final(self).state() == State::Stopped
            },
            old(self).state() != State::Stopped ==> match event {
                Event::StopSignal(stopped) => if stopped {
                    &&& r is SendStopAndExit
                    &&& final(self).state() == State::Stopped
                } else {
                    &&& r is Wait
                    &&& final(self).state() == old(self).state()
                },
                Event::Datagram(buf) => if old(self).state() == State::InfoRequested {
                    &&& r is StartPlaying
                    &&& final(self).state() == State::Started
                } else {
                    &&& final(self).state() == State::Started
                    &&& buf@.len() < CNT_LEN <==> r is Discard
                    &&& buf@.len() >= CNT_LEN <==> r is Enqueue
                    &&& r matches Action::Discard(e) ==> *e.repr is WrongArgument
                    &&& r matches Action::Enqueue(p) ==> {
                        &&& p.cnt as int == be_u32(buf@.subrange(0, 4))
                        &&& p.payload() == Some(buf@.subrange(4, buf@.len() as int))
                    }
                },
            },
    {
        if self.state == State::Stopped {
            return Action::Wait;
        }
        match event {
            Event::StopSignal(stopped) => {
                if stopped {
                    self.state = State::Stopped;
                    Action::SendStopAndExit
                } else {
                    Action::Wait
                }
            },
            Event::Datagram(buf) => {
                if self.state == State::InfoRequested {
                    self.state = State::Started;
                    Action::StartPlaying
                } else {
                    match self.pkt_decoder.parse(buf) {
                        Ok(pkt) => Action::Enqueue(pkt),
                        Err(e) => Action::Discard(e),
                    }
                }
            },
        }
    }
}

} // verus!
