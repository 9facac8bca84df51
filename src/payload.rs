//! The content kinds that the companion device pushes.

use vstd::prelude::*;

verus! {

/// An image as it arrived: bytes in whatever format the sender used.
pub struct PhotoPayload {
    pub bytes: Vec<u8>,
}

/// A text message; `code` is a verification code, possibly empty.
pub struct SmsPayload {
    pub sender: String,
    pub content: String,
    pub code: String,
}

/// Clipboard text copied on the companion device, with its time in epoch milliseconds.
pub struct ClipboardPayload {
    pub text: String,
    pub timestamp: i64,
}

/// One accepted submission.
pub enum Payload {
    Photo(PhotoPayload),
    Sms(SmsPayload),
    Clipboard(ClipboardPayload),
}

} // verus!
