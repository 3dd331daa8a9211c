//! The frame payload sent to the operator interface: the frame's metadata
//! and its bytes as standard base64 text.

use vstd::prelude::*;
use crate::frame::{Frame, FrameMeta, bytes_as_slice, bytes_contents};

verus! {

/// The character of a 6-bit value in the standard base64 alphabet
/// (`A`-`Z`, `a`-`z`, `0`-`9`, `+`, `/`).
pub open spec fn base64_digit(v: int) -> char {
    if v < 26 {
        (65 + v) as char
    } else if v < 52 {
        (71 + v) as char
    } else if v < 62 {
        (v - 4) as char
    } else if v == 62 {
        '+'
    } else {
        '/'
    }
}

/// Standard base64 (RFC 4648) of `data`: each group of three bytes becomes
/// four characters, and a final group of one or two bytes is padded with `=`.
pub open spec fn base64_text(data: Seq<u8>) -> Seq<char>
    decreases data.len(),
{
    if data.len() == 0 {
        Seq::empty()
    } else if data.len() == 1 {
        let a = data[0] as int;
        seq![base64_digit(a / 4), base64_digit((a % 4) * 16), '=', '=']
    } else if data.len() == 2 {
        let a = data[0] as int;
        let b = data[1] as int;
        seq![base64_digit(a / 4), base64_digit((a % 4) * 16 + b / 16), base64_digit((b % 16) * 4), '=']
    } else {
        let a = data[0] as int;
        let b = data[1] as int;
        let c = data[2] as int;
        seq![
            base64_digit(a / 4),
            base64_digit((a % 4) * 16 + b / 16),
            base64_digit((b % 16) * 4 + c / 64),
            base64_digit(c % 64),
        ] + base64_text(data.subrange(3, data.len() as int))
    }
}

/// Length of the padded base64 text of `n` bytes.
pub open spec fn base64_len(n: nat) -> nat {
    (n / 3) * 4 + if n % 3 > 0 {
        4nat
    } else {
        0nat
    }
}

/// `base64::engine::general_purpose::STANDARD.encode`: the standard base64
/// text of `data`, with padding. The encoder panics when the text's length
/// does not fit in a `usize`, which `requires` leaves out.
#[verifier::external_body]
fn standard_base64(data: &[u8]) -> (text: String)
    requires
        base64_len(data@.len()) <= usize::MAX,
    ensures
        text@ == base64_text(data@),
{
    base64::Engine::encode(&base64::engine::general_purpose::STANDARD, data)
}

/// A frame as the operator interface receives it.
#[derive(Debug, Clone)]
pub struct FramePayload {
    pub meta: FrameMeta,
    pub data_base64: String,
}

/// The payload of a frame: its metadata and its bytes in standard base64.
pub fn frame_payload(frame: &Frame) -> (payload: FramePayload)
    ensures
        payload.meta == frame.meta,
        payload.data_base64@ == base64_text(bytes_contents(frame.bytes)),
{
    let bytes = bytes_as_slice(&frame.bytes);
    assert(base64_len(bytes@.len()) <= usize::MAX) by {
        assert(isize::MAX * 2 + 1 == usize::MAX);
    }
    FramePayload { meta: frame.meta, data_base64: standard_base64(bytes) }
}

} // verus!
