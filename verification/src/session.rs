//! What the host decides when it opens a session: which transport an
//! address selects, which credentials are used, and which steps the setup
//! takes.

use crate::text::{occurs_at, starts_at, to_chars, to_text_range};
use vstd::prelude::*;

verus! {

/// The transport that the scheme of an address selects.
#[derive(Clone, Copy, Debug, PartialEq, Eq, Structural)]
pub enum Transport {
    /// The protocol on a plain stream: `rac://`.
    Rac,
    /// The protocol in WebSocket frames: `wrac://`.
    Wrac,
}

impl Transport {
    /// The scheme that selects this transport.
    pub open spec fn scheme(self) -> Seq<char> {
        match self {
            Transport::Rac => seq!['r', 'a', 'c', ':', '/', '/'],
            Transport::Wrac => seq!['w', 'r', 'a', 'c', ':', '/', '/'],
        }
    }

    /// The scheme that selects this transport.
    pub fn scheme_chars(&self) -> (out: Vec<char>)
        ensures
            out@ == self.scheme(),
    {
        let out: Vec<char> = match self {
            Transport::Rac => vec!['r', 'a', 'c', ':', '/', '/'],
            Transport::Wrac => vec!['w', 'r', 'a', 'c', ':', '/', '/'],
        };
        assert(out@ =~= self.scheme());
        out
    }
}

/// The name and the optional password of a user.
#[derive(Debug, PartialEq, Eq)]
pub struct Credentials {
    pub username: String,
    pub password: Option<String>,
}

/// What the host asked for when it opens a session.
#[derive(Debug, PartialEq, Eq)]
pub struct Setup {
    pub transport: Transport,
    pub address: String,
    pub credentials: Credentials,
    pub use_tls: bool,
}

/// The transport that `address` selects and the address without its
/// scheme. `None` if the address starts with neither scheme.
pub open spec fn endpoint_of(address: Seq<char>) -> Option<(Transport, Seq<char>)> {
    if occurs_at(address, Transport::Rac.scheme(), 0) {
        Some((Transport::Rac, address.skip(Transport::Rac.scheme().len() as int)))
    } else if occurs_at(address, Transport::Wrac.scheme(), 0) {
        Some((Transport::Wrac, address.skip(Transport::Wrac.scheme().len() as int)))
    } else {
        None
    }
}

/// The password to use: none if the text given is empty.
pub open spec fn password_of(password: Seq<char>) -> Option<Seq<char>> {
    if password.len() == 0 {
        None
    } else {
        Some(password)
    }
}

/// The text shown for an address without a known scheme.
pub open spec fn invalid_address_text() -> Seq<char> {
    "Invalid connection string."@
}

/// The avatar to use from now on: the one given, or the current one if the
/// one given is empty.
pub open spec fn avatar_after(current: Option<Seq<char>>, given: Seq<char>) -> Option<Seq<char>> {
    if given.len() == 0 {
        current
    } else {
        Some(given)
    }
}

/// The avatar to use from now on.
pub fn update_avatar(current: Option<String>, given: String) -> (out: Option<String>)
    ensures
        crate::message::text_of(out) == avatar_after(crate::message::text_of(current), given@),
{
    if given.as_str().is_empty() {
        current
    } else {
        Some(given)
    }
}

impl Setup {
    /// Reads the host's request to open a session. It is refused, with a
    /// text for display, if and only if the address has no known scheme.
    pub fn plan(address: &str, user_name: &str, password: &str, use_tls: bool) -> (r: Result<
        Setup,
        String,
    >)
        ensures
            match r {
                Ok(setup) => endpoint_of(address@) == Some((setup.transport, setup.address@))
                    && setup.credentials.username@ == user_name@ && crate::message::text_of(
                    setup.credentials.password,
                ) == password_of(password@) && setup.use_tls == use_tls,
                Err(text) => endpoint_of(address@) is None && text@ == invalid_address_text(),
            },
    {
        let chars = to_chars(address);
        let rac = Transport::Rac.scheme_chars();
        let wrac = Transport::Wrac.scheme_chars();
        let transport = if starts_at(chars.as_slice(), rac.as_slice(), 0) {
            Transport::Rac
        } else if starts_at(chars.as_slice(), wrac.as_slice(), 0) {
            Transport::Wrac
        } else {
            return Err("Invalid connection string.".to_owned());
        };
        let skip = match transport {
            Transport::Rac => rac.len(),
            Transport::Wrac => wrac.len(),
        };
        let password = if password.is_empty() {
            None
        } else {
            Some(password.to_owned())
        };
        Ok(
            Setup {
                transport,
                address: to_text_range(chars.as_slice(), skip, chars.len()),
                credentials: Credentials { username: user_name.to_owned(), password },
                use_tls,
            },
        )
    }
}

/// A call that the host makes on the transport's client while it opens a
/// session.
#[derive(Clone, Copy, Debug, PartialEq, Eq, Structural)]
pub enum Stage {
    /// Open the WebSocket.
    Prepare,
    /// Get the count of the log, which becomes the cursor.
    FetchSize,
    /// Register the user.
    Register,
}

/// How a call on the transport's client ended.
#[derive(Debug, PartialEq, Eq)]
pub enum Outcome {
    /// The call succeeded.
    Done,
    /// The call failed because the user name is taken; `.0` is the text of
    /// the error.
    NameTaken(String),
    /// The call failed for another reason; `.0` is the text of the error.
    Failed(String),
}

/// What follows a call while a session is opened.
#[derive(Debug, PartialEq, Eq)]
pub enum Progress {
    /// Make this call next.
    Call(Stage),
    /// The session is open.
    Connected,
    /// The session could not be opened; `.0` is the text for display.
    Refused(String),
}

/// What an `Outcome` holds, as plain values.
pub ghost enum OutcomeView {
    Done,
    NameTaken(Seq<char>),
    Failed(Seq<char>),
}

impl View for Outcome {
    type V = OutcomeView;

    open spec fn view(&self) -> OutcomeView {
        match self {
            Outcome::Done => OutcomeView::Done,
            Outcome::NameTaken(text) => OutcomeView::NameTaken(text@),
            Outcome::Failed(text) => OutcomeView::Failed(text@),
        }
    }
}

/// What a `Progress` holds, as plain values.
pub ghost enum ProgressView {
    Call(Stage),
    Connected,
    Refused(Seq<char>),
}

impl View for Progress {
    type V = ProgressView;

    open spec fn view(&self) -> ProgressView {
        match self {
            Progress::Call(stage) => ProgressView::Call(*stage),
            Progress::Connected => ProgressView::Connected,
            Progress::Refused(text) => ProgressView::Refused(text@),
        }
    }
}

/// The first call of a setup: the WebSocket is opened first, a plain
/// stream needs no preparation.
pub open spec fn first_stage(transport: Transport) -> Stage {
    match transport {
        Transport::Rac => Stage::FetchSize,
        Transport::Wrac => Stage::Prepare,
    }
}

/// What follows the call `stage` that ended with `outcome`.
///
/// After the WebSocket is open the count is fetched. After the count the
/// user is registered if a password was given, and else the session is open.
/// After the registration the session is open, also where the name was
/// taken: that user exists already. Every other failure refuses the session
/// with the error's text.
pub open spec fn progress_after(stage: Stage, outcome: OutcomeView, has_password: bool) -> ProgressView {
    match outcome {
        OutcomeView::Done => match stage {
            Stage::Prepare => ProgressView::Call(Stage::FetchSize),
            Stage::FetchSize => if has_password {
                ProgressView::Call(Stage::Register)
            } else {
                ProgressView::Connected
            },
            Stage::Register => ProgressView::Connected,
        },
        OutcomeView::NameTaken(text) => match stage {
            Stage::Register => ProgressView::Connected,
            _ => ProgressView::Refused(text),
        },
        OutcomeView::Failed(text) => ProgressView::Refused(text),
    }
}

impl Setup {
    /// The first call of this setup.
    pub fn first(&self) -> (stage: Stage)
        ensures
            stage == first_stage(self.transport),
    {
        match self.transport {
            Transport::Rac => Stage::FetchSize,
            Transport::Wrac => Stage::Prepare,
        }
    }

    /// What follows the call `stage` that ended with `outcome`.
    pub fn advance(&self, stage: Stage, outcome: Outcome) -> (next: Progress)
        ensures
            next@ == progress_after(stage, outcome@, self.credentials.password is Some),
    {
        match outcome {
            Outcome::Done => match stage {
                Stage::Prepare => Progress::Call(Stage::FetchSize),
                Stage::FetchSize => if self.credentials.password.is_some() {
                    Progress::Call(Stage::Register)
                } else {
                    Progress::Connected
                },
                Stage::Register => Progress::Connected,
            },
            Outcome::NameTaken(text) => match stage {
                Stage::Register => Progress::Connected,
                _ => Progress::Refused(text),
            },
            Outcome::Failed(text) => Progress::Refused(text),
        }
    }
}

} // verus!
