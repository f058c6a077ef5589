//! Asynchronous notifications, as the server sends them.

use vstd::prelude::*;
use vstd::string::*;
use vstd::utf8::*;

verus! {

/// The body of a `NotificationResponse` message.
#[derive(Debug, PartialEq, Eq)]
pub struct Notification {
    /// The process ID of the notifying backend.
    pub process_id: u32,
    /// The bytes of the channel's name.
    pub channel: Vec<u8>,
    /// The bytes of the payload.
    pub payload: Vec<u8>,
}

/// An asynchronous notification from Postgres.
#[derive(PartialEq, Eq)]
pub struct PgNotification(pub Notification);

impl PgNotification {
    /// The process ID of the notifying backend process.
    pub fn process_id(&self) -> (id: u32)
        ensures
            id == self.0.process_id,
    {
        self.0.process_id
    }

    /// The channel that the notify has been raised on. This can be thought of as the message
    /// topic.
    pub fn channel(&self) -> (name: &str)
        requires
            valid_utf8(self.0.channel@),
        ensures
            name@ == decode_utf8(self.0.channel@),
            name.spec_bytes() == self.0.channel@,
    {
        let name = core::str::from_utf8(self.0.channel.as_slice()).unwrap();
        proof {
            encode_utf8_decode_utf8(name@);
        }
        name
    }

    /// The payload of the notification. An empty payload is received as an empty string.
    pub fn payload(&self) -> (text: &str)
        requires
            valid_utf8(self.0.payload@),
        ensures
            text@ == decode_utf8(self.0.payload@),
            text.spec_bytes() == self.0.payload@,
            self.0.payload@.len() == 0 ==> text@.len() == 0,
    {
        let text = core::str::from_utf8(self.0.payload.as_slice()).unwrap();
        proof {
            encode_utf8_decode_utf8(text@);
        }
        text
    }
}

} // verus!
