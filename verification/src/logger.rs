//! Categories of operational log lines and their short tags.

use vstd::prelude::*;

verus! {

/// The kind of event an operational log line reports. Each kind has a short
/// tag that log output prepends to the message.
pub enum LogMessagType {
    Information,
    IncomingRequest,
    EncounteredError,
    RequestHandled,
}

impl LogMessagType {
    /// The tag text for this kind of log line.
    pub open spec fn spec_abbreviation(self) -> Seq<char> {
        match self {
            LogMessagType::EncounteredError => "ERR"@,
            LogMessagType::IncomingRequest => "REQ"@,
            LogMessagType::Information => "INFO"@,
            LogMessagType::RequestHandled => "OK"@,
        }
    }

    /// Returns the tag that log output prepends to a message of this kind.
    pub fn as_abbreviation(&self) -> (r: &'static str)
        ensures
            r@ == self.spec_abbreviation(),
    {
        match self {
            LogMessagType::EncounteredError => "ERR",
            LogMessagType::IncomingRequest => "REQ",
            LogMessagType::Information => "INFO",
            LogMessagType::RequestHandled => "OK",
        }
    }
}

} // verus!
