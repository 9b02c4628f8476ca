//! What goes wrong on a connection, as the stations report it.

use crate::text;
use vstd::prelude::*;

verus! {

/// Why an APDU, or the conversation it is part of, was given up.
#[derive(Clone, Copy, Debug, PartialEq, Eq, Structural)]
pub enum Error {
    /// An ASDU longer than one I frame carries.
    AsduTooLong,
    /// An APDU that does not open with the start byte.
    NotAStart,
    /// An APDU length under four or over the most an APDU may be.
    LengthOutOfRange,
    /// A U frame with a command that does not exist.
    UnknownCommand,
    /// The peer closed after the start byte.
    CutOffInLength,
    /// The peer closed before the length it announced.
    CutOffInBody,
    /// An I frame while data transfer was not started.
    NotStarted,
    /// An I frame that is not the next in sequence.
    OutOfSequence { send: u16, expected: u16 },
    /// An acknowledgement of something other than the frame just sent.
    WrongAcknowledgement { receive: u16, expected: u16 },
    /// The station closed while an I frame was not acknowledged.
    ClosedUnacknowledged,
    /// The station answered STARTDT with something other than its
    /// confirmation.
    StartNotConfirmed,
}

impl Error {
    /// The text of [`Error::message`].
    pub open spec fn message_text(self) -> Seq<char> {
        match self {
            Error::AsduTooLong => "an ASDU over what one APDU carries"@,
            Error::NotAStart => "a byte that is not the APDU start"@,
            Error::LengthOutOfRange => "an APDU length outside four to 253"@,
            Error::UnknownCommand => "a U command that does not exist"@,
            Error::CutOffInLength => "reading the APDU length"@,
            Error::CutOffInBody => "reading the APDU"@,
            Error::NotStarted => "an I frame before STARTDT"@,
            Error::OutOfSequence { send, expected } => "send sequence "@ + text::decimal_text(
                send as nat,
            ) + " where "@ + text::decimal_text(expected as nat) + " was expected"@,
            Error::WrongAcknowledgement { receive, expected } => "acknowledged up to "@
                + text::decimal_text(receive as nat) + ", not "@ + text::decimal_text(
                expected as nat,
            ),
            Error::ClosedUnacknowledged => "the station closed before acknowledging"@,
            Error::StartNotConfirmed => "the station did not confirm STARTDT"@,
        }
    }

    /// What went wrong, in words.
    pub fn message(&self) -> (text: String)
        ensures
            text@ == self.message_text(),
    {
        match self {
            Error::AsduTooLong => String::from_str("an ASDU over what one APDU carries"),
            Error::NotAStart => String::from_str("a byte that is not the APDU start"),
            Error::LengthOutOfRange => String::from_str("an APDU length outside four to 253"),
            Error::UnknownCommand => String::from_str("a U command that does not exist"),
            Error::CutOffInLength => String::from_str("reading the APDU length"),
            Error::CutOffInBody => String::from_str("reading the APDU"),
            Error::NotStarted => String::from_str("an I frame before STARTDT"),
            Error::OutOfSequence { send, expected } => {
                let mut words = String::from_str("send sequence ");
                words.append(text::decimal(*send).as_str());
                words.append(" where ");
                words.append(text::decimal(*expected).as_str());
                words.append(" was expected");
                words
            },
            Error::WrongAcknowledgement { receive, expected } => {
                let mut words = String::from_str("acknowledged up to ");
                words.append(text::decimal(*receive).as_str());
                words.append(", not ");
                words.append(text::decimal(*expected).as_str());
                words
            },
            Error::ClosedUnacknowledged => String::from_str(
                "the station closed before acknowledging",
            ),
            Error::StartNotConfirmed => String::from_str("the station did not confirm STARTDT"),
        }
    }
}

} // verus!
