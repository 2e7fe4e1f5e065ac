use crate::error::{Error, ErrorRepr};
use vstd::prelude::*;

verus! {

pub const SL_PCMSAMPLEFORMAT_FIXED_8: u32 = 8;
pub const SL_PCMSAMPLEFORMAT_FIXED_16: u32 = 16;
pub const SL_PCMSAMPLEFORMAT_FIXED_32: u32 = 32;
/// Sampling rates in milliHertz, as the audio backend takes them.
pub const SL_SAMPLINGRATE_8: u32 = 8000000;
pub const SL_SAMPLINGRATE_44_1: u32 = 44100000;
pub const SL_SAMPLINGRATE_48: u32 = 48000000;
pub const SL_BYTEORDER_LITTLEENDIAN: u32 = 2;

/// Channels in the playback format.
pub const CHANNELS: usize = 2;
/// Bounds on a plausible playout duration of one decoded frame, in microseconds.
pub const MIN_FRAME_DURATION_US: u64 = 15000;
pub const MAX_FRAME_DURATION_US: u64 = 43000;

/// The playback format of the audio sink.
#[derive(Debug, PartialEq, Eq, Structural, Clone, Copy)]
pub struct Settings {
    pub rate: SampleRate,
    pub format: SampleFormat,
}

#[derive(Debug, PartialEq, Eq, Structural, Clone, Copy)]
pub enum SampleRate {
    Rate8000,
    Rate44100,
    Rate48000,
}

#[derive(Debug, PartialEq, Eq, Structural, Clone, Copy)]
pub enum SampleFormat {
    U8LE,
    S16LE,
    S32LE,
}

impl SampleRate {
    pub open spec fn spec_hz(&self) -> nat {
        match self {
            SampleRate::Rate8000 => 8000,
            SampleRate::Rate44100 => 44100,
            SampleRate::Rate48000 => 48000,
        }
    }

    /// Samples per second.
    pub fn to_hz(&self) -> (r: u32)
        ensures
            r == self.spec_hz(),
    {
        match self {
            SampleRate::Rate8000 => 8000,
            SampleRate::Rate44100 => 44100,
            SampleRate::Rate48000 => 48000,
        }
    }

    /// The rate in the backend's unit, milliHertz.
    pub fn to_raw(&self) -> (r: u32)
        ensures
            r == self.spec_hz() * 1000,
    {
        match self {
            SampleRate::Rate8000 => SL_SAMPLINGRATE_8,
            SampleRate::Rate44100 => SL_SAMPLINGRATE_44_1,
            SampleRate::Rate48000 => SL_SAMPLINGRATE_48,
        }
    }
}

impl SampleFormat {
    pub open spec fn spec_sample_size(&self) -> nat {
        match self {
            SampleFormat::U8LE => 1,
            SampleFormat::S16LE => 2,
            SampleFormat::S32LE => 4,
        }
    }

    /// Bytes in one sample of one channel.
    pub fn get_sample_size(&self) -> (r: usize)
        ensures
            r == self.spec_sample_size(),
    {
        match self {
            SampleFormat::U8LE => 1,
            SampleFormat::S16LE => 2,
            SampleFormat::S32LE => 4,
        }
    }

    /// Bits in one sample, as the backend takes them.
    pub fn to_raw(&self) -> (r: u32)
        ensures
            r == self.spec_sample_size() * 8,
    {
        match self {
            SampleFormat::U8LE => SL_PCMSAMPLEFORMAT_FIXED_8,
            SampleFormat::S16LE => SL_PCMSAMPLEFORMAT_FIXED_16,
            SampleFormat::S32LE => SL_PCMSAMPLEFORMAT_FIXED_32,
        }
    }

    /// The byte order, as the backend takes it: every format here is little-endian.
    pub fn to_raw_endian(&self) -> (r: u32)
        ensures
            r == SL_BYTEORDER_LITTLEENDIAN,
    {
        SL_BYTEORDER_LITTLEENDIAN
    }
}

/// Playout duration in whole microseconds of `bytes` of decoded audio.
pub open spec fn spec_pkt_duration(settings: Settings, bytes: nat) -> int {
    let samples = bytes / settings.format.spec_sample_size() / (CHANNELS as nat);
    ((samples * 1_000_000) / settings.rate.spec_hz()) as int
}

pub open spec fn is_plausible_duration(us: int) -> bool {
    MIN_FRAME_DURATION_US <= us <= MAX_FRAME_DURATION_US
}

impl Settings {
    /// The playout duration of one decoded frame of `bytes` bytes, when it
    /// lies in the plausible range of a frame; `None` otherwise, which marks
    /// a format that does not match the stream.
    pub fn calc_pkt_duration(&self, bytes: usize) -> (r: Option<u64>)
        ensures
            is_plausible_duration(spec_pkt_duration(*self, bytes as nat)) <==> r is Some,
            r matches Some(d) ==> d == spec_pkt_duration(*self, bytes as nat),
    {
        let samples = bytes / self.format.get_sample_size() / CHANNELS;
        let rate = self.rate.to_hz();
        let wide: u128 = samples as u128 * 1_000_000;
        let micros = wide / rate as u128;
        if MIN_FRAME_DURATION_US as u128 <= micros && micros <= MAX_FRAME_DURATION_US as u128 {
            Some(micros as u64)
        } else {
            None
        }
    }
}

pub const SL_RESULT_SUCCESS: u32 = 0;
pub const SL_RESULT_PRECONDITIONS_VIOLATED: u32 = 1;
pub const SL_RESULT_PARAMETER_INVALID: u32 = 2;
pub const SL_RESULT_MEMORY_FAILURE: u32 = 3;
pub const SL_RESULT_RESOURCE_ERROR: u32 = 4;
pub const SL_RESULT_RESOURCE_LOST: u32 = 5;
pub const SL_RESULT_IO_ERROR: u32 = 6;
pub const SL_RESULT_BUFFER_INSUFFICIENT: u32 = 7;
pub const SL_RESULT_CONTENT_CORRUPTED: u32 = 8;
pub const SL_RESULT_CONTENT_UNSUPPORTED: u32 = 9;
pub const SL_RESULT_CONTENT_NOT_FOUND: u32 = 10;
pub const SL_RESULT_PERMISSION_DENIED: u32 = 11;
pub const SL_RESULT_FEATURE_UNSUPPORTED: u32 = 12;
pub const SL_RESULT_INTERNAL_ERROR: u32 = 13;
pub const SL_RESULT_UNKNOWN_ERROR: u32 = 14;
pub const SL_RESULT_OPERATION_ABORTED: u32 = 15;
pub const SL_RESULT_CONTROL_LOST: u32 = 16;

pub const SL_PLAYSTATE_STOPPED: u32 = 1;
pub const SL_PLAYSTATE_PAUSED: u32 = 2;
pub const SL_PLAYSTATE_PLAYING: u32 = 3;

/// The decimal digit `d`.
pub open spec fn digit_char(d: nat) -> char {
    if d == 0 {
        '0'
    } else if d == 1 {
        '1'
    } else if d == 2 {
        '2'
    } else if d == 3 {
        '3'
    } else if d == 4 {
        '4'
    } else if d == 5 {
        '5'
    } else if d == 6 {
        '6'
    } else if d == 7 {
        '7'
    } else if d == 8 {
        '8'
    } else {
        '9'
    }
}

/// The decimal notation of `n`, without leading zeros.
pub open spec fn decimal(n: nat) -> Seq<char>
    decreases n,
{
    if n < 10 {
        seq![digit_char(n)]
    } else {
        decimal(n / 10).push(digit_char(n % 10))
    }
}

/// The decimal digit `d` as a string.
fn digit_str(d: u32) -> (r: &'static str)
    requires
        d < 10,
    ensures
        r@ =~= seq![digit_char(d as nat)],
{
    if d == 0 {
        proof {
            reveal_strlit("0");
        }
        "0"
    } else if d == 1 {
        proof {
            reveal_strlit("1");
        }
        "1"
    } else if d == 2 {
        proof {
            reveal_strlit("2");
        }
        "2"
    } else if d == 3 {
        proof {
            reveal_strlit("3");
        }
        "3"
    } else if d == 4 {
        proof {
            reveal_strlit("4");
        }
        "4"
    } else if d == 5 {
        proof {
            reveal_strlit("5");
        }
        "5"
    } else if d == 6 {
        proof {
            reveal_strlit("6");
        }
        "6"
    } else if d == 7 {
        proof {
            reveal_strlit("7");
        }
        "7"
    } else if d == 8 {
        proof {
            reveal_strlit("8");
        }
        "8"
    } else {
        proof {
            reveal_strlit("9");
        }
        "9"
    }
}

/// The decimal notation of `n`, without sign or leading zeros.
pub fn decimal_string(n: u32) -> (r: String)
    ensures
        r@ == decimal(n as nat),
    decreases n,
{
    if n < 10 {
        String::from_str(digit_str(n))
    } else {
        decimal_string(n / 10).concat(digit_str(n % 10))
    }
}

/// The name of each result code of the audio backend.
pub open spec fn sl_result_text(code: u32) -> Seq<char> {
    if code == SL_RESULT_SUCCESS {
        "success"@
    } else if code == SL_RESULT_PRECONDITIONS_VIOLATED {
        "preconditions_violated"@
    } else if code == SL_RESULT_PARAMETER_INVALID {
        "parameter_invalid"@
    } else if code == SL_RESULT_MEMORY_FAILURE {
        "memory_failure"@
    } else if code == SL_RESULT_RESOURCE_ERROR {
        "resource_error"@
    } else if code == SL_RESULT_RESOURCE_LOST {
        "resource_lost"@
    } else if code == SL_RESULT_IO_ERROR {
        "io_error"@
    } else if code == SL_RESULT_BUFFER_INSUFFICIENT {
        "buffer_insufficient"@
    } else if code == SL_RESULT_CONTENT_CORRUPTED {
        "content_corrupted"@
    } else if code == SL_RESULT_CONTENT_UNSUPPORTED {
        "content_unsupported"@
    } else if code == SL_RESULT_CONTENT_NOT_FOUND {
        "content_not_found"@
    } else if code == SL_RESULT_PERMISSION_DENIED {
        "permission_denied"@
    } else if code == SL_RESULT_FEATURE_UNSUPPORTED {
        "feature_unsupported"@
    } else if code == SL_RESULT_INTERNAL_ERROR {
        "internal_error"@
    } else if code == SL_RESULT_UNKNOWN_ERROR {
        "unknown_error"@
    } else if code == SL_RESULT_OPERATION_ABORTED {
        "operation_aborted"@
    } else if code == SL_RESULT_CONTROL_LOST {
        "control_lost"@
    } else {
        "unknown error code: "@ + decimal(code as nat)
    }
}

pub fn sl_result_to_str(err_code: u32) -> (r: String)
    ensures
        r@ == sl_result_text(err_code),
{
    if err_code == SL_RESULT_SUCCESS {
        String::from_str("success")
    } else if err_code == SL_RESULT_PRECONDITIONS_VIOLATED {
        String::from_str("preconditions_violated")
    } else if err_code == SL_RESULT_PARAMETER_INVALID {
        String::from_str("parameter_invalid")
    } else if err_code == SL_RESULT_MEMORY_FAILURE {
        String::from_str("memory_failure")
    } else if err_code == SL_RESULT_RESOURCE_ERROR {
        String::from_str("resource_error")
    } else if err_code == SL_RESULT_RESOURCE_LOST {
        String::from_str("resource_lost")
    } else if err_code == SL_RESULT_IO_ERROR {
        String::from_str("io_error")
    } else if err_code == SL_RESULT_BUFFER_INSUFFICIENT {
        String::from_str("buffer_insufficient")
    } else if err_code == SL_RESULT_CONTENT_CORRUPTED {
        String::from_str("content_corrupted")
    } else if err_code == SL_RESULT_CONTENT_UNSUPPORTED {
        String::from_str("content_unsupported")
    } else if err_code == SL_RESULT_CONTENT_NOT_FOUND {
        String::from_str("content_not_found")
    } else if err_code == SL_RESULT_PERMISSION_DENIED {
        String::from_str("permission_denied")
    } else if err_code == SL_RESULT_FEATURE_UNSUPPORTED {
        String::from_str("feature_unsupported")
    } else if err_code == SL_RESULT_INTERNAL_ERROR {
        String::from_str("internal_error")
    } else if err_code == SL_RESULT_UNKNOWN_ERROR {
        String::from_str("unknown_error")
    } else if err_code == SL_RESULT_OPERATION_ABORTED {
        String::from_str("operation_aborted")
    } else if err_code == SL_RESULT_CONTROL_LOST {
        String::from_str("control_lost")
    } else {
        String::from_str("unknown error code: ").concat(decimal_string(err_code).as_str())
    }
}

/// A failure reported by the audio backend.
#[derive(Debug)]
pub enum SlErrorRepr {
    /// A call returned this result code; the text says during what.
    Sl(u32, String),
    /// The backend does not provide the method of this name.
    UnknownMethod(String),
}

#[derive(Debug)]
pub struct SlError {
    pub repr: SlErrorRepr,
}

/// The message that describes an audio backend failure.
pub open spec fn sl_error_text(repr: SlErrorRepr) -> Seq<char> {
    match repr {
        SlErrorRepr::Sl(code, context) => if context@.len() == 0 {
            "OpenSLES error: "@ + sl_result_text(code)
        } else {
            "OpenSLES error: "@ + sl_result_text(code) + " during "@ + context@
        },
        SlErrorRepr::UnknownMethod(name) => "OpenSLES method "@ + name@ + " is not defined"@,
    }
}

impl SlError {
    pub fn new_sl(err_code: u32, context: String) -> (r: Self)
        ensures
            r.repr == SlErrorRepr::Sl(err_code, context),
    {
        SlError { repr: SlErrorRepr::Sl(err_code, context) }
    }

    pub fn new_unknown_method(method_name: String) -> (r: Self)
        ensures
            r.repr == SlErrorRepr::UnknownMethod(method_name),
    {
        SlError { repr: SlErrorRepr::UnknownMethod(method_name) }
    }

    /// The message that describes this failure.
    pub fn to_string(&self) -> (r: String)
        ensures
            r@ == sl_error_text(self.repr),
    {
        match &self.repr {
            SlErrorRepr::Sl(err_code, context) => {
                let s = String::from_str("OpenSLES error: ").concat(
                    sl_result_to_str(*err_code).as_str(),
                );
                if context.as_str().is_empty() {
                    s
                } else {
                    s.concat(" during ").concat(context.as_str())
                }
            },
            SlErrorRepr::UnknownMethod(name) => {
                String::from_str("OpenSLES method ").concat(name.as_str()).concat(" is not defined")
            },
        }
    }
}

/// Turns the result code of a backend call into a result: success for
/// `SL_RESULT_SUCCESS`, else an error that keeps the code and `context`.
pub fn check_sl_result(err_code: u32, context: String) -> (r: Result<(), SlError>)
    ensures
        r is Ok <==> err_code == SL_RESULT_SUCCESS,
        r matches Err(e) ==> e.repr == SlErrorRepr::Sl(err_code, context),
{
    if err_code != SL_RESULT_SUCCESS {
        Err(SlError::new_sl(err_code, context))
    } else {
        Ok(())
    }
}

#[derive(Debug, PartialEq, Eq, Structural, Clone, Copy)]
pub enum PlayState {
    Stopped,
    Paused,
    Playing,
}

impl PlayState {
    pub open spec fn spec_raw(&self) -> u32 {
        match self {
            PlayState::Stopped => SL_PLAYSTATE_STOPPED,
            PlayState::Paused => SL_PLAYSTATE_PAUSED,
            PlayState::Playing => SL_PLAYSTATE_PLAYING,
        }
    }

    /// The state as the backend takes it.
    pub fn to_raw(&self) -> (r: u32)
        ensures
            r == self.spec_raw(),
    {
        match self {
            PlayState::Stopped => SL_PLAYSTATE_STOPPED,
            PlayState::Paused => SL_PLAYSTATE_PAUSED,
            PlayState::Playing => SL_PLAYSTATE_PLAYING,
        }
    }

    /// The state that the backend reports as `raw_state`; a value that
    /// names no state is a wrong argument.
    pub fn from_raw(raw_state: u32) -> (r: Result<Self, Error>)
        ensures
            r matches Ok(s) ==> s.spec_raw() == raw_state,
            r is Err <==> !(raw_state == SL_PLAYSTATE_STOPPED || raw_state == SL_PLAYSTATE_PAUSED
                || raw_state == SL_PLAYSTATE_PLAYING),
            r matches Err(e) ==> *e.repr matches ErrorRepr::WrongArgument(m) && m@
                == "Unknown raw state value: "@ + decimal(raw_state as nat),
    {
        if raw_state == SL_PLAYSTATE_STOPPED {
            Ok(PlayState::Stopped)
        } else if raw_state == SL_PLAYSTATE_PAUSED {
            Ok(PlayState::Paused)
        } else if raw_state == SL_PLAYSTATE_PLAYING {
            Ok(PlayState::Playing)
        } else {
            Err(Error::new_wrong_argument(
                String::from_str("Unknown raw state value: ").concat(decimal_string(raw_state).as_str()),
            ))
        }
    }
}

} // verus!
