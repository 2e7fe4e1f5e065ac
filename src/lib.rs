//! A network audio receiver: packet framing, a sequence-ordered jitter
//! buffer with gap filling and adaptive delay, rolling statistics, and the
//! decisions of the datagram receive loop.
pub mod android_audio;
pub mod error;
pub mod interval_measure;
pub mod net_client;
pub mod notify;
pub mod output_buffer;
pub mod pkt_decoder;
pub mod window_avg_calc;

use vstd::prelude::*;

verus! {

/// A greeting addressed to `to`.
pub fn rust_greeting(to: &str) -> (r: String)
    ensures
        r@ == "Hello "@ + to@ + ". How are you?"@,
{
    String::from_str("Hello ").concat(to).concat(". How are you?")
}

} // verus!
