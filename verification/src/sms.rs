//! Text messages to and from telephones.

use vstd::prelude::*;

verus! {

/// A text message.
#[derive(Debug)]
pub struct SmsMessage {
    /// The number of the other party: digits, without a leading plus.
    pub phone_number: String,
    pub body: String,
}

} // verus!
