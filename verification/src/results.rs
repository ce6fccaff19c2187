//! What the host is told about a connection attempt and about a message
//! that was to be sent: whether it succeeded, and a text for display.

use crate::client::{ClientError, Reply};
use vstd::prelude::*;

verus! {

/// The outcome of a connection attempt, for display.
#[derive(Debug, PartialEq, Eq)]
pub struct ConnectionResult {
    pub success: bool,
    pub message: String,
}

/// The outcome of sending a message, for display.
#[derive(Debug, PartialEq, Eq)]
pub struct SendResult {
    pub success: bool,
    pub message: String,
}

/// The text shown for a session that was opened at `address`.
pub open spec fn connected_text(address: Seq<char>) -> Seq<char> {
    "Connected to "@ + address
}

/// The text shown for a connection attempt that failed with `reason`.
pub open spec fn not_connected_text(reason: Seq<char>) -> Seq<char> {
    "Failed to connect: "@ + reason
}

/// The text shown for a message that was sent.
pub open spec fn sent_text() -> Seq<char> {
    "Message sent"@
}

impl ConnectionResult {
    /// What the host is told when the attempt to open a session at
    /// `address` ended with `outcome`: success if and only if the session
    /// was opened, and else the error's text.
    pub fn report(address: &str, outcome: &Result<Reply, ClientError>) -> (out: ConnectionResult)
        ensures
            out.success <==> outcome matches Ok(Reply::Connected),
            out.message@ == match outcome {
                Ok(Reply::Connected) => connected_text(address@),
                Ok(_) => not_connected_text(ClientError::ConnectionError.spec_message()),
                Err(error) => not_connected_text(error.spec_message()),
            },
    {
        match outcome {
            Ok(Reply::Connected) => {
                let mut message = "Connected to ".to_owned();
                message.append(address);
                ConnectionResult { success: true, message }
            },
            Ok(_) => {
                let mut message = "Failed to connect: ".to_owned();
                message.append(ClientError::ConnectionError.message().as_str());
                ConnectionResult { success: false, message }
            },
            Err(error) => {
                let mut message = "Failed to connect: ".to_owned();
                message.append(error.message().as_str());
                ConnectionResult { success: false, message }
            },
        }
    }
}

impl SendResult {
    /// What the host is told when the posting of a message ended with
    /// `outcome`: success if and only if the message was written, and else
    /// the error's text.
    pub fn report(outcome: &Result<Reply, ClientError>) -> (out: SendResult)
        ensures
            out.success <==> outcome matches Ok(Reply::Sent),
            out.message@ == match outcome {
                Ok(Reply::Sent) => sent_text(),
                Ok(_) => ClientError::StreamWriteError.spec_message(),
                Err(error) => error.spec_message(),
            },
    {
        match outcome {
            Ok(Reply::Sent) => SendResult { success: true, message: "Message sent".to_owned() },
            Ok(_) => SendResult { success: false, message: ClientError::StreamWriteError.message() },
            Err(error) => SendResult { success: false, message: error.message() },
        }
    }
}

} // verus!
