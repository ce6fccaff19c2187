//! The protocol client as a state machine without input or output of its
//! own.
//!
//! An operation on the session is an `Exchange`. It is started from a
//! `Client` and a `Goal`, and each call of `Exchange::advance` takes the
//! outcome of the last action (an `Event`) and says what has to be done next
//! (an `Action`), or how the operation ended. The caller opens the stream,
//! writes and reads; every decision is taken here. The exchange owns the
//! client while it runs and hands it back when it ends, so no two operations
//! on one session can overlap.

use crate::message::{views, MessageResponse, MessageResponseView};
use crate::wire::{
    batch_of, build_count_request, build_delta_request, build_post_request, count_of,
    count_request, decode_delta, delta_request, parse_count, post_request, utf8_lossy,
    COUNT_RESPONSE_MAX,
};
use crate::formatter::encoded;
use vstd::prelude::*;

verus! {

/// Why an operation failed.
#[derive(Debug, PartialEq, Eq)]
pub enum ClientError {
    /// The stream could not be opened.
    ConnectionError,
    /// The operation needs a session and there is none.
    AddressNotSet,
    /// A request could not be written in full.
    StreamWriteError,
    /// A response could not be read in full.
    StreamReadError,
    /// The count response is not a count.
    ParseError(String),
}

/// What a `ClientError` holds, as plain values.
pub ghost enum ClientErrorView {
    ConnectionError,
    AddressNotSet,
    StreamWriteError,
    StreamReadError,
    ParseError(Seq<char>),
}

impl View for ClientError {
    type V = ClientErrorView;

    open spec fn view(&self) -> ClientErrorView {
        match self {
            ClientError::ConnectionError => ClientErrorView::ConnectionError,
            ClientError::AddressNotSet => ClientErrorView::AddressNotSet,
            ClientError::StreamWriteError => ClientErrorView::StreamWriteError,
            ClientError::StreamReadError => ClientErrorView::StreamReadError,
            ClientError::ParseError(text) => ClientErrorView::ParseError(text@),
        }
    }
}

/// The text that comes with a count response that is not a count.
pub open spec fn malformed_count() -> ClientErrorView {
    ClientErrorView::ParseError("Failed to parse message count from response"@)
}

impl ClientError {
    /// The error's text for display.
    pub open spec fn spec_message(self) -> Seq<char> {
        match self {
            ClientError::ConnectionError => "Connection error occurred"@,
            ClientError::AddressNotSet => "Address not set for the client"@,
            ClientError::StreamWriteError => "Error writing to the stream"@,
            ClientError::StreamReadError => "Error reading from the stream"@,
            ClientError::ParseError(text) => "Failed to parse message count from response: "@
                + text@,
        }
    }

    /// The error's text for display.
    pub fn message(&self) -> (out: String)
        ensures
            out@ == self.spec_message(),
    {
        match self {
            ClientError::ConnectionError => "Connection error occurred".to_owned(),
            ClientError::AddressNotSet => "Address not set for the client".to_owned(),
            ClientError::StreamWriteError => "Error writing to the stream".to_owned(),
            ClientError::StreamReadError => "Error reading from the stream".to_owned(),
            ClientError::ParseError(text) => {
                let mut out = "Failed to parse message count from response: ".to_owned();
                out.append(text.as_str());
                out
            },
        }
    }
}

/// A session: the address of the server, the user's name, and the cursor,
/// which is the count of the log as it was last seen. Without a session all
/// three are unset.
#[derive(Debug)]
pub struct Client {
    pub messages_count: usize,
    pub user_name: Option<String>,
    pub address: Option<String>,
}

/// What a `Client` holds, as plain values.
pub ghost struct ClientView {
    pub messages_count: usize,
    pub user_name: Option<Seq<char>>,
    pub address: Option<Seq<char>>,
}

impl View for Client {
    type V = ClientView;

    open spec fn view(&self) -> ClientView {
        ClientView {
            messages_count: self.messages_count,
            user_name: crate::message::text_of(self.user_name),
            address: crate::message::text_of(self.address),
        }
    }
}

impl ClientView {
    /// The client without a session.
    pub open spec fn disconnected() -> ClientView {
        ClientView { messages_count: 0, user_name: None, address: None }
    }

    /// A session exists: address and user name are set.
    pub open spec fn connected(self) -> bool {
        self.address is Some && self.user_name is Some
    }
}

/// An operation that starts with the count of the log.
#[derive(Debug)]
pub enum Query {
    /// Open a session at `address` for `user_name`.
    Setup { address: String, user_name: String },
    /// Get the count.
    Count,
    /// Get what the log holds behind the cursor.
    Fetch,
}

/// What a `Query` holds, as plain values.
pub ghost enum QueryView {
    Setup { address: Seq<char>, user_name: Seq<char> },
    Count,
    Fetch,
}

impl View for Query {
    type V = QueryView;

    open spec fn view(&self) -> QueryView {
        match self {
            Query::Setup { address, user_name } => QueryView::Setup {
                address: address@,
                user_name: user_name@,
            },
            Query::Count => QueryView::Count,
            Query::Fetch => QueryView::Fetch,
        }
    }
}

/// What an operation is for.
#[derive(Debug)]
pub enum Goal {
    /// Ask for the count and go on from there.
    Ask(Query),
    /// Post a message: `text`, with the avatar's address if there is one.
    Send { text: String, avatar_url: Option<String> },
}

/// What a `Goal` holds, as plain values.
pub ghost enum GoalView {
    Ask(QueryView),
    Send { text: Seq<char>, avatar_url: Option<Seq<char>> },
}

impl View for Goal {
    type V = GoalView;

    open spec fn view(&self) -> GoalView {
        match self {
            Goal::Ask(query) => GoalView::Ask(query@),
            Goal::Send { text, avatar_url } => GoalView::Send {
                text: text@,
                avatar_url: crate::message::text_of(*avatar_url),
            },
        }
    }
}

/// What an exchange waits for.
#[derive(Debug)]
pub enum Phase {
    /// The stream is being opened; `request` is written once it is open.
    Connecting { ask: Option<Query>, request: Vec<u8> },
    /// The message is being written.
    Posting,
    /// The count request is being written.
    Asking { query: Query },
    /// The count response is being read.
    ReadingCount { query: Query },
    /// The delta request is being written; `wanted` bytes will be read.
    WritingDelta { count: usize, wanted: usize },
    /// The delta is being read: `buffer` holds what came, `needed` bytes
    /// are still to come.
    ReadingDelta { count: usize, needed: usize, buffer: Vec<u8> },
}

/// What a `Phase` holds, as plain values.
pub ghost enum PhaseView {
    Connecting { ask: Option<QueryView>, request: Seq<u8> },
    Posting,
    Asking { query: QueryView },
    ReadingCount { query: QueryView },
    WritingDelta { count: usize, wanted: usize },
    ReadingDelta { count: usize, needed: usize, buffer: Seq<u8> },
}

impl View for Phase {
    type V = PhaseView;

    open spec fn view(&self) -> PhaseView {
        match self {
            Phase::Connecting { ask, request } => PhaseView::Connecting {
                ask: match ask {
                    Some(q) => Some(q@),
                    None => None,
                },
                request: request@,
            },
            Phase::Posting => PhaseView::Posting,
            Phase::Asking { query } => PhaseView::Asking { query: query@ },
            Phase::ReadingCount { query } => PhaseView::ReadingCount { query: query@ },
            Phase::WritingDelta { count, wanted } => PhaseView::WritingDelta {
                count: *count,
                wanted: *wanted,
            },
            Phase::ReadingDelta { count, needed, buffer } => PhaseView::ReadingDelta {
                count: *count,
                needed: *needed,
                buffer: buffer@,
            },
        }
    }
}

/// An operation under way: the session it runs on and what it waits for.
#[derive(Debug)]
pub struct Exchange {
    pub client: Client,
    pub phase: Phase,
}

/// What an `Exchange` holds, as plain values.
pub ghost struct ExchangeView {
    pub client: ClientView,
    pub phase: PhaseView,
}

impl View for Exchange {
    type V = ExchangeView;

    open spec fn view(&self) -> ExchangeView {
        ExchangeView { client: self.client@, phase: self.phase@ }
    }
}

/// What the caller has to do next.
#[derive(Debug, PartialEq, Eq)]
pub enum Action {
    /// Open a stream to this address.
    Connect(String),
    /// Write all of these bytes.
    Write(Vec<u8>),
    /// Read once, at most this many bytes.
    Read(usize),
}

/// What an `Action` holds, as plain values.
pub ghost enum ActionView {
    Connect(Seq<char>),
    Write(Seq<u8>),
    Read(usize),
}

impl View for Action {
    type V = ActionView;

    open spec fn view(&self) -> ActionView {
        match self {
            Action::Connect(address) => ActionView::Connect(address@),
            Action::Write(bytes) => ActionView::Write(bytes@),
            Action::Read(most) => ActionView::Read(*most),
        }
    }
}

/// How the last action ended.
#[derive(Debug)]
pub enum Event {
    /// The stream is open, or all bytes were written.
    Ready,
    /// These bytes were read; none at all at the end of the stream.
    Data(Vec<u8>),
    /// The action failed.
    Failed,
}

/// What an `Event` holds, as plain values.
pub ghost enum EventView {
    Ready,
    Data(Seq<u8>),
    Failed,
}

impl View for Event {
    type V = EventView;

    open spec fn view(&self) -> EventView {
        match self {
            Event::Ready => EventView::Ready,
            Event::Data(bytes) => EventView::Data(bytes@),
            Event::Failed => EventView::Failed,
        }
    }
}

/// What an operation that succeeded yields.
#[derive(Debug, PartialEq, Eq)]
pub enum Reply {
    /// The session is open.
    Connected,
    /// The count of the log.
    Count(u64),
    /// The messages behind the cursor; none if the log has not grown.
    Messages(Vec<MessageResponse>),
    /// The message was written.
    Sent,
}

/// What a `Reply` holds, as plain values.
pub ghost enum ReplyView {
    Connected,
    Count(u64),
    Messages(Seq<MessageResponseView>),
    Sent,
}

impl View for Reply {
    type V = ReplyView;

    open spec fn view(&self) -> ReplyView {
        match self {
            Reply::Connected => ReplyView::Connected,
            Reply::Count(count) => ReplyView::Count(*count),
            Reply::Messages(batch) => ReplyView::Messages(views(batch@)),
            Reply::Sent => ReplyView::Sent,
        }
    }
}

/// Where an operation stands after a step.
#[derive(Debug)]
pub enum Step {
    /// The operation goes on: do the action and report how it ended.
    Continue(Exchange, Action),
    /// The operation succeeded. The client is handed back.
    Done(Client, Reply),
    /// The operation failed. The client is handed back as it was when the
    /// operation started.
    Failed(Client, ClientError),
}

/// What a `Step` holds, as plain values.
pub ghost enum StepView {
    Continue(ExchangeView, ActionView),
    Done(ClientView, ReplyView),
    Failed(ClientView, ClientErrorView),
}

impl View for Step {
    type V = StepView;

    open spec fn view(&self) -> StepView {
        match self {
            Step::Continue(exchange, action) => StepView::Continue(exchange@, action@),
            Step::Done(client, reply) => StepView::Done(client@, reply@),
            Step::Failed(client, error) => StepView::Failed(client@, error@),
        }
    }
}

/// The first step of an operation on `client`.
///
/// Opening a session needs none; every other operation fails with
/// `AddressNotSet` unless a session exists. The first action opens a stream:
/// to the new address for a new session, else to the session's address. The
/// request that will be written on it is the post request for a message and
/// the count request for everything else.
pub open spec fn begun(client: ClientView, goal: GoalView) -> StepView {
    match goal {
        GoalView::Ask(QueryView::Setup { address, user_name }) => StepView::Continue(
            ExchangeView {
                client,
                phase: PhaseView::Connecting {
                    ask: Some(QueryView::Setup { address, user_name }),
                    request: count_request(),
                },
            },
            ActionView::Connect(address),
        ),
        GoalView::Ask(query) => if client.connected() {
            StepView::Continue(
                ExchangeView {
                    client,
                    phase: PhaseView::Connecting { ask: Some(query), request: count_request() },
                },
                ActionView::Connect(client.address->0),
            )
        } else {
            StepView::Failed(client, ClientErrorView::AddressNotSet)
        },
        GoalView::Send { text, avatar_url } => if client.connected() {
            StepView::Continue(
                ExchangeView {
                    client,
                    phase: PhaseView::Connecting {
                        ask: None,
                        request: post_request(encoded(client.user_name->0, text, avatar_url)),
                    },
                },
                ActionView::Connect(client.address->0),
            )
        } else {
            StepView::Failed(client, ClientErrorView::AddressNotSet)
        },
    }
}

/// The count that a response writes, if it fits `most`.
pub open spec fn count_within(response: Seq<u8>, most: int) -> Option<nat> {
    match count_of(response) {
        Some(n) => if n <= most {
            Some(n)
        } else {
            None
        },
        None => None,
    }
}

/// The step that follows a count response.
///
/// A response that is not a count (or one too large for the machine) fails
/// the operation. Else a new session starts with the count as its cursor; a
/// count query yields the count; a fetch ends with no messages if the count
/// is not above the cursor, and else asks for the log from the cursor on,
/// of which `count - cursor` bytes will be read.
pub open spec fn counted(client: ClientView, query: QueryView, response: Seq<u8>) -> StepView {
    match query {
        QueryView::Setup { address, user_name } => match count_within(
            response,
            usize::MAX as int,
        ) {
            Some(n) => StepView::Done(
                ClientView {
                    messages_count: n as usize,
                    user_name: Some(user_name),
                    address: Some(address),
                },
                ReplyView::Connected,
            ),
            None => StepView::Failed(client, malformed_count()),
        },
        QueryView::Count => match count_within(response, u64::MAX as int) {
            Some(n) => StepView::Done(client, ReplyView::Count(n as u64)),
            None => StepView::Failed(client, malformed_count()),
        },
        QueryView::Fetch => match count_within(response, usize::MAX as int) {
            Some(n) => if n <= client.messages_count {
                StepView::Done(client, ReplyView::Messages(Seq::empty()))
            } else {
                StepView::Continue(
                    ExchangeView {
                        client,
                        phase: PhaseView::WritingDelta {
                            count: n as usize,
                            wanted: (n - client.messages_count) as usize,
                        },
                    },
                    ActionView::Write(delta_request(client.messages_count as nat)),
                )
            },
            None => StepView::Failed(client, malformed_count()),
        },
    }
}

/// The step that follows a chunk of the delta.
///
/// An empty chunk is the end of the stream before the delta is whole, and a
/// chunk longer than what was asked for cannot be part of it: both fail the
/// read. Else the chunk is added to the buffer. With the last byte the
/// cursor moves to the count and the buffer is decoded; before that, what is
/// still needed is asked for.
pub open spec fn chunked(
    client: ClientView,
    count: usize,
    needed: usize,
    buffer: Seq<u8>,
    chunk: Seq<u8>,
) -> StepView {
    if chunk.len() == 0 || chunk.len() > needed {
        StepView::Failed(client, ClientErrorView::StreamReadError)
    } else if chunk.len() == needed {
        StepView::Done(
            ClientView { messages_count: count, ..client },
            ReplyView::Messages(batch_of(utf8_lossy(buffer + chunk))),
        )
    } else {
        StepView::Continue(
            ExchangeView {
                client,
                phase: PhaseView::ReadingDelta {
                    count,
                    needed: (needed - chunk.len()) as usize,
                    buffer: buffer + chunk,
                },
            },
            ActionView::Read((needed - chunk.len()) as usize),
        )
    }
}

/// The step that follows `event` in the exchange `x`.
///
/// In each phase one kind of event lets the operation go on: `Ready` where
/// a stream is being opened or a request written, `Data` where a response is
/// being read. Any other event fails the operation with the error of the
/// action that was under way, and the client is handed back unchanged.
pub open spec fn advanced(x: ExchangeView, event: EventView) -> StepView {
    match x.phase {
        PhaseView::Connecting { ask, request } => match event {
            EventView::Ready => StepView::Continue(
                ExchangeView {
                    client: x.client,
                    phase: match ask {
                        Some(q) => PhaseView::Asking { query: q },
                        None => PhaseView::Posting,
                    },
                },
                ActionView::Write(request),
            ),
            _ => StepView::Failed(x.client, ClientErrorView::ConnectionError),
        },
        PhaseView::Posting => match event {
            EventView::Ready => StepView::Done(x.client, ReplyView::Sent),
            _ => StepView::Failed(x.client, ClientErrorView::StreamWriteError),
        },
        PhaseView::Asking { query } => match event {
            EventView::Ready => StepView::Continue(
                ExchangeView { client: x.client, phase: PhaseView::ReadingCount { query } },
                ActionView::Read(COUNT_RESPONSE_MAX),
            ),
            _ => StepView::Failed(x.client, ClientErrorView::StreamWriteError),
        },
        PhaseView::ReadingCount { query } => match event {
            EventView::Data(response) => counted(x.client, query, response),
            _ => StepView::Failed(x.client, ClientErrorView::StreamReadError),
        },
        PhaseView::WritingDelta { count, wanted } => match event {
            EventView::Ready => StepView::Continue(
                ExchangeView {
                    client: x.client,
                    phase: PhaseView::ReadingDelta { count, needed: wanted, buffer: Seq::empty() },
                },
                ActionView::Read(wanted),
            ),
            _ => StepView::Failed(x.client, ClientErrorView::StreamWriteError),
        },
        PhaseView::ReadingDelta { count, needed, buffer } => match event {
            EventView::Data(chunk) => chunked(x.client, count, needed, buffer, chunk),
            _ => StepView::Failed(x.client, ClientErrorView::StreamReadError),
        },
    }
}

/// The error for a count response that is not a count.
fn malformed() -> (error: ClientError)
    ensures
        error@ == malformed_count(),
{
    ClientError::ParseError("Failed to parse message count from response".to_owned())
}

/// The count that `response` writes, if it fits `usize`.
fn parse_cursor(response: &[u8]) -> (r: Option<usize>)
    ensures
        r == match count_within(response@, usize::MAX as int) {
            Some(n) => Some(n as usize),
            None => None,
        },
{
    match parse_count(response) {
        Some(n) => if n <= usize::MAX as u64 {
            Some(n as usize)
        } else {
            None
        },
        None => None,
    }
}

/// The step that follows a count response.
fn on_count(client: Client, query: Query, response: &[u8]) -> (step: Step)
    ensures
        step@ == counted(client@, query@, response@),
{
    match query {
        Query::Setup { address, user_name } => match parse_cursor(response) {
            Some(count) => Step::Done(
                Client { messages_count: count, user_name: Some(user_name), address: Some(address) },
                Reply::Connected,
            ),
            None => Step::Failed(client, malformed()),
        },
        Query::Count => match parse_count(response) {
            Some(count) => Step::Done(client, Reply::Count(count)),
            None => Step::Failed(client, malformed()),
        },
        Query::Fetch => match parse_cursor(response) {
            Some(count) => if count <= client.messages_count {
                let none: Vec<MessageResponse> = Vec::new();
                assert(views(none@) =~= Seq::empty());
                Step::Done(client, Reply::Messages(none))
            } else {
                let request = build_delta_request(client.messages_count);
                let wanted = count - client.messages_count;
                Step::Continue(
                    Exchange { client, phase: Phase::WritingDelta { count, wanted } },
                    Action::Write(request),
                )
            },
            None => Step::Failed(client, malformed()),
        },
    }
}

/// The step that follows a chunk of the delta.
fn on_chunk(client: Client, count: usize, needed: usize, buffer: Vec<u8>, chunk: Vec<u8>) -> (step:
    Step)
    ensures
        step@ == chunked(client@, count, needed, buffer@, chunk@),
{
    if chunk.len() == 0 || chunk.len() > needed {
        return Step::Failed(client, ClientError::StreamReadError);
    }
    let mut whole = buffer;
    whole.extend_from_slice(chunk.as_slice());
    assert(whole@ == buffer@ + chunk@);
    if chunk.len() == needed {
        let batch = decode_delta(whole.as_slice());
        Step::Done(
            Client { messages_count: count, user_name: client.user_name, address: client.address },
            Reply::Messages(batch),
        )
    } else {
        let needed = needed - chunk.len();
        Step::Continue(
            Exchange { client, phase: Phase::ReadingDelta { count, needed, buffer: whole } },
            Action::Read(needed),
        )
    }
}

impl Exchange {
    /// Takes the outcome of the last action and says what follows.
    pub fn advance(self, event: Event) -> (step: Step)
        ensures
            step@ == advanced(self@, event@),
    {
        let Exchange { client, phase } = self;
        match phase {
            Phase::Connecting { ask, request } => match event {
                Event::Ready => Step::Continue(
                    Exchange {
                        client,
                        phase: match ask {
                            Some(q) => Phase::Asking { query: q },
                            None => Phase::Posting,
                        },
                    },
                    Action::Write(request),
                ),
                _ => Step::Failed(client, ClientError::ConnectionError),
            },
            Phase::Posting => match event {
                Event::Ready => Step::Done(client, Reply::Sent),
                _ => Step::Failed(client, ClientError::StreamWriteError),
            },
            Phase::Asking { query } => match event {
                Event::Ready => Step::Continue(
                    Exchange { client, phase: Phase::ReadingCount { query } },
                    Action::Read(COUNT_RESPONSE_MAX),
                ),
                _ => Step::Failed(client, ClientError::StreamWriteError),
            },
            Phase::ReadingCount { query } => match event {
                Event::Data(response) => on_count(client, query, response.as_slice()),
                _ => Step::Failed(client, ClientError::StreamReadError),
            },
            Phase::WritingDelta { count, wanted } => match event {
                Event::Ready => Step::Continue(
                    Exchange {
                        client,
                        phase: Phase::ReadingDelta { count, needed: wanted, buffer: Vec::new() },
                    },
                    Action::Read(wanted),
                ),
                _ => Step::Failed(client, ClientError::StreamWriteError),
            },
            Phase::ReadingDelta { count, needed, buffer } => match event {
                Event::Data(chunk) => on_chunk(client, count, needed, buffer, chunk),
                _ => Step::Failed(client, ClientError::StreamReadError),
            },
        }
    }
}

impl Default for Client {
    /// A client without a session.
    fn default() -> (client: Client)
        ensures
            client@ == ClientView::disconnected(),
    {
        Client::new()
    }
}

impl Client {
    /// A client without a session.
    pub fn new() -> (client: Client)
        ensures
            client@ == ClientView::disconnected(),
    {
        Client { messages_count: 0, user_name: None, address: None }
    }

    /// Ends the session: address, user name and cursor are cleared.
    pub fn disconnect(&mut self)
        ensures
            final(self)@ == ClientView::disconnected(),
    {
        self.address = None;
        self.messages_count = 0;
        self.user_name = None;
    }

    /// Starts the operation `goal` on this client.
    pub fn begin(self, goal: Goal) -> (step: Step)
        ensures
            step@ == begun(self@, goal@),
    {
        match goal {
            Goal::Ask(Query::Setup { address, user_name }) => {
                let target = address.clone();
                Step::Continue(
                    Exchange {
                        client: self,
                        phase: Phase::Connecting {
                            ask: Some(Query::Setup { address, user_name }),
                            request: build_count_request(),
                        },
                    },
                    Action::Connect(target),
                )
            },
            Goal::Ask(query) => {
                let target = match (&self.address, &self.user_name) {
                    (Some(address), Some(_)) => Some(address.clone()),
                    _ => None,
                };
                match target {
                    Some(target) => Step::Continue(
                        Exchange {
                            client: self,
                            phase: Phase::Connecting {
                                ask: Some(query),
                                request: build_count_request(),
                            },
                        },
                        Action::Connect(target),
                    ),
                    None => Step::Failed(self, ClientError::AddressNotSet),
                }
            },
            Goal::Send { text, avatar_url } => {
                let plan = match (&self.address, &self.user_name) {
                    (Some(address), Some(user_name)) => {
                        let avatar: Option<&str> = match &avatar_url {
                            Some(url) => Some(url.as_str()),
                            None => None,
                        };
                        Some(
                            (
                                address.clone(),
                                build_post_request(user_name.as_str(), text.as_str(), avatar),
                            ),
                        )
                    },
                    _ => None,
                };
                match plan {
                    Some((target, request)) => Step::Continue(
                        Exchange { client: self, phase: Phase::Connecting { ask: None, request } },
                        Action::Connect(target),
                    ),
                    None => Step::Failed(self, ClientError::AddressNotSet),
                }
            },
        }
    }

    /// The action that opens a stream to the session's server.
    pub fn get_stream(&self) -> (r: Result<Action, ClientError>)
        ensures
            match r {
                Ok(action) => self.address is Some && action@ == ActionView::Connect(
                    self@.address->0,
                ),
                Err(error) => self.address is None && error@ == ClientErrorView::AddressNotSet,
            },
    {
        match &self.address {
            Some(address) => Ok(Action::Connect(address.clone())),
            None => Err(ClientError::AddressNotSet),
        }
    }

    /// Starts the opening of a session at `address` for `user_name`.
    pub fn setup_connection(self, address: &str, user_name: &str) -> (step: Step)
        ensures
            step@ == begun(
                self@,
                GoalView::Ask(QueryView::Setup { address: address@, user_name: user_name@ }),
            ),
    {
        self.begin(
            Goal::Ask(Query::Setup { address: address.to_owned(), user_name: user_name.to_owned() }),
        )
    }

    /// Starts the posting of `message`.
    pub fn send_message(self, message: &str) -> (step: Step)
        ensures
            step@ == begun(self@, GoalView::Send { text: message@, avatar_url: None }),
    {
        self.begin(Goal::Send { text: message.to_owned(), avatar_url: None })
    }

    /// Starts a query for the count of the log.
    pub fn fetch_messages_count(self) -> (step: Step)
        ensures
            step@ == begun(self@, GoalView::Ask(QueryView::Count)),
    {
        self.begin(Goal::Ask(Query::Count))
    }

    /// Starts a fetch of the messages behind the cursor.
    pub fn get_messages(self) -> (step: Step)
        ensures
            step@ == begun(self@, GoalView::Ask(QueryView::Fetch)),
    {
        self.begin(Goal::Ask(Query::Fetch))
    }
}

/// The bytes of `chunks`, one chunk after the other.
pub open spec fn flat(chunks: Seq<Seq<u8>>) -> Seq<u8>
    decreases chunks.len(),
{
    if chunks.len() == 0 {
        Seq::empty()
    } else {
        flat(chunks.drop_last()) + chunks.last()
    }
}

/// The step that is reached from `step` when the reads return `chunks`, one
/// after the other. An operation that has ended stays as it is.
pub open spec fn delivered(step: StepView, chunks: Seq<Seq<u8>>) -> StepView
    decreases chunks.len(),
{
    if chunks.len() == 0 {
        step
    } else {
        match delivered(step, chunks.drop_last()) {
            StepView::Continue(x, action) => advanced(x, EventView::Data(chunks.last())),
            ended => ended,
        }
    }
}

/// The step at which the read of a delta starts: the delta request for a
/// log that grew from `client.messages_count` to `count` has been written.
pub open spec fn delta_started(client: ClientView, count: usize) -> StepView {
    let wanted = (count - client.messages_count) as usize;
    StepView::Continue(
        ExchangeView {
            client,
            phase: PhaseView::ReadingDelta { count, needed: wanted, buffer: Seq::empty() },
        },
        ActionView::Read(wanted),
    )
}

/// Every query on a session starts in the same way: a stream to the
/// session's address is opened, the count request is written, at most
/// `COUNT_RESPONSE_MAX` bytes are read, and the response decides what
/// follows.
pub proof fn lemma_query_reaches_count(client: ClientView, query: QueryView, response: Seq<u8>)
    requires
        client.connected(),
        !(query is Setup),
    ensures
        begun(client, GoalView::Ask(query)) matches StepView::Continue(opening, connect) && {
            &&& connect == ActionView::Connect(client.address->0)
            &&& advanced(opening, EventView::Ready) matches StepView::Continue(asking, write)
                && {
                &&& write == ActionView::Write(count_request())
                &&& advanced(asking, EventView::Ready) matches StepView::Continue(reading, read)
                    && {
                    &&& read == ActionView::Read(COUNT_RESPONSE_MAX)
                    &&& advanced(reading, EventView::Data(response)) == counted(
                        client,
                        query,
                        response,
                    )
                }
            }
        },
{
}

/// A message is posted in one write on a stream of its own: the stream to
/// the session's address is opened, the post request with the encoded
/// message is written, and with that the operation has succeeded and the
/// session is as it was.
pub proof fn lemma_send_writes_post(
    client: ClientView,
    text: Seq<char>,
    avatar_url: Option<Seq<char>>,
)
    requires
        client.connected(),
    ensures
        begun(client, GoalView::Send { text, avatar_url }) matches StepView::Continue(
            opening,
            connect,
        ) && {
            &&& connect == ActionView::Connect(client.address->0)
            &&& advanced(opening, EventView::Ready) matches StepView::Continue(posting, write)
                && {
                &&& write == ActionView::Write(
                    post_request(encoded(client.user_name->0, text, avatar_url)),
                )
                &&& advanced(posting, EventView::Ready) == StepView::Done(
                    client,
                    ReplyView::Sent,
                )
            }
        },
{
}

/// A fetch asks for the log from the cursor on and for nothing before it:
/// when the count response writes a count above the cursor, the delta
/// request names the cursor, `count - cursor` bytes are wanted, and the read
/// starts with an empty buffer once the request is written.
pub proof fn lemma_fetch_requests_delta(client: ClientView, response: Seq<u8>, count: usize)
    requires
        count_of(response) == Some(count as nat),
        client.messages_count < count,
    ensures
        counted(client, QueryView::Fetch, response) == StepView::Continue(
            ExchangeView {
                client,
                phase: PhaseView::WritingDelta {
                    count,
                    wanted: (count - client.messages_count) as usize,
                },
            },
            ActionView::Write(delta_request(client.messages_count as nat)),
        ),
        advanced(counted(client, QueryView::Fetch, response)->Continue_0, EventView::Ready)
            == delta_started(client, count),
{
}

/// While the delta is being read, the buffer holds every byte that came,
/// and each read asks for exactly what is still missing.
pub proof fn lemma_delta_in_progress(client: ClientView, count: usize, chunks: Seq<Seq<u8>>)
    requires
        client.messages_count < count,
        delivered(delta_started(client, count), chunks) is Continue,
    ensures
        flat(chunks).len() < count - client.messages_count,
        delivered(delta_started(client, count), chunks) == StepView::Continue(
            ExchangeView {
                client,
                phase: PhaseView::ReadingDelta {
                    count,
                    needed: (count - client.messages_count - flat(chunks).len()) as usize,
                    buffer: flat(chunks),
                },
            },
            ActionView::Read((count - client.messages_count - flat(chunks).len()) as usize),
        ),
    decreases chunks.len(),
{
    if chunks.len() > 0 {
        lemma_delta_in_progress(client, count, chunks.drop_last());
    }
}

/// A delta is read to its exact length. When the read that returns the last
/// of `chunks` ends the fetch with success, the chunks hold exactly
/// `count - cursor` bytes, the cursor has moved to `count` and nothing else
/// of the session has changed, and the messages are those of the bytes
/// read. When it fails, the chunk was empty or too long, the error is a read
/// error and the session is as it was.
pub proof fn lemma_delta_read_exactly(client: ClientView, count: usize, chunks: Seq<Seq<u8>>)
    requires
        client.messages_count < count,
        chunks.len() > 0,
        delivered(delta_started(client, count), chunks.drop_last()) is Continue,
    ensures
        match delivered(delta_started(client, count), chunks) {
            StepView::Continue(x, action) => flat(chunks).len() < count - client.messages_count,
            StepView::Done(after, reply) => {
                &&& flat(chunks).len() == count - client.messages_count
                &&& after == ClientView { messages_count: count, ..client }
                &&& reply == ReplyView::Messages(batch_of(utf8_lossy(flat(chunks))))
            },
            StepView::Failed(after, error) => {
                &&& after == client
                &&& error == ClientErrorView::StreamReadError
                &&& (chunks.last().len() == 0 || flat(chunks).len() > count
                    - client.messages_count)
            },
        },
{
    lemma_delta_in_progress(client, count, chunks.drop_last());
    if delivered(delta_started(client, count), chunks) is Continue {
        lemma_delta_in_progress(client, count, chunks);
    }
}

/// A fetch that finds the log no longer than the cursor ends at once: no
/// messages, no further action, the session unchanged.
pub proof fn lemma_fetch_nothing_new(client: ClientView, response: Seq<u8>, count: nat)
    requires
        count_of(response) == Some(count),
        count <= client.messages_count,
    ensures
        counted(client, QueryView::Fetch, response) == StepView::Done(
            client,
            ReplyView::Messages(Seq::empty()),
        ),
{
}

/// A count response that is not a count fails the operation, whatever it
/// was for, and leaves the session unchanged.
pub proof fn lemma_malformed_count(client: ClientView, query: QueryView, response: Seq<u8>)
    requires
        count_of(response) is None,
    ensures
        counted(client, query, response) == StepView::Failed(client, malformed_count()),
{
}

/// A step that fails hands the client back as the exchange held it, and a
/// step that goes on keeps it.
pub proof fn lemma_failure_keeps_session(x: ExchangeView, event: EventView)
    ensures
        match advanced(x, event) {
            StepView::Continue(next, action) => next.client == x.client,
            StepView::Done(after, reply) => true,
            StepView::Failed(after, error) => after == x.client,
        },
{
}

impl ExchangeView {
    /// The exchange is one that `begun` and `advanced` lead to: while a
    /// delta is asked for or read, its count is above the cursor and what is
    /// wanted or needed of it is no more than `count - cursor`.
    pub open spec fn well_formed(self) -> bool {
        match self.phase {
            PhaseView::WritingDelta { count, wanted } => self.client.messages_count < count
                && wanted == count - self.client.messages_count,
            PhaseView::ReadingDelta { count, needed, buffer } => self.client.messages_count
                < count && 0 < needed && needed + buffer.len() == count
                - self.client.messages_count,
            _ => true,
        }
    }
}

/// The first step of every operation leads to a well-formed exchange, or to
/// none.
pub proof fn lemma_begun_well_formed(client: ClientView, goal: GoalView)
    ensures
        match begun(client, goal) {
            StepView::Continue(x, action) => x.well_formed(),
            StepView::Done(after, reply) => false,
            StepView::Failed(after, error) => after == client && error
                == ClientErrorView::AddressNotSet,
        },
{
}

/// The cursor never moves back within a session. A step of a well-formed
/// exchange leads to a well-formed exchange on the same session, or ends
/// the operation. At the end the session is as before, but for two cases: a
/// fetch that read its delta in full has moved the cursor forward to the
/// count, by the number of bytes read, and a setup has started a new
/// session.
pub proof fn lemma_cursor_monotone(x: ExchangeView, event: EventView)
    requires
        x.well_formed(),
    ensures
        match advanced(x, event) {
            StepView::Continue(next, action) => next.well_formed() && next.client == x.client,
            StepView::Done(after, reply) => match reply {
                ReplyView::Connected => after.connected(),
                ReplyView::Messages(batch) => after.address == x.client.address
                    && after.user_name == x.client.user_name && after.messages_count
                    >= x.client.messages_count && (after.messages_count
                    > x.client.messages_count ==> x.phase is ReadingDelta && event is Data
                    && after.messages_count - x.client.messages_count == x.phase->buffer.len()
                    + event->Data_0.len()),
                _ => after == x.client,
            },
            StepView::Failed(after, error) => after == x.client,
        },
{
}

} // verus!
