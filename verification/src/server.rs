//! The host's handle on a session: it starts the operations of the client
//! and tells the host how each ended.

use crate::client::{
    begun, Client, ClientError, ClientView, GoalView, QueryView, Reply, Step,
};
use crate::results::{ConnectionResult, SendResult};
use vstd::prelude::*;

verus! {

/// A session as the host holds it.
#[derive(Debug)]
pub struct Server {
    pub client: Client,
}

impl Default for Server {
    /// A server handle without a session.
    fn default() -> (server: Server)
        ensures
            server.client@ == ClientView::disconnected(),
    {
        Server::new()
    }
}

impl Server {
    /// A server handle without a session.
    pub fn new() -> (server: Server)
        ensures
            server.client@ == ClientView::disconnected(),
    {
        Server { client: Client::new() }
    }

    /// Ends the session: address, user name and cursor are cleared.
    pub fn disconnect(&mut self)
        ensures
            final(self).client@ == ClientView::disconnected(),
    {
        self.client.disconnect();
    }

    /// Starts the opening of a session at `address` for `user_name`.
    pub fn setup_connection(self, address: &str, user_name: &str) -> (step: Step)
        ensures
            step@ == begun(
                self.client@,
                GoalView::Ask(QueryView::Setup { address: address@, user_name: user_name@ }),
            ),
    {
        self.client.setup_connection(address, user_name)
    }

    /// Starts the posting of `message`.
    pub fn send_message(self, message: &str) -> (step: Step)
        ensures
            step@ == begun(self.client@, GoalView::Send { text: message@, avatar_url: None }),
    {
        self.client.send_message(message)
    }

    /// Starts a query for the count of the log.
    pub fn fetch_messages_count(self) -> (step: Step)
        ensures
            step@ == begun(self.client@, GoalView::Ask(QueryView::Count)),
    {
        self.client.fetch_messages_count()
    }

    /// Starts a fetch of the messages behind the cursor.
    pub fn get_messages(self) -> (step: Step)
        ensures
            step@ == begun(self.client@, GoalView::Ask(QueryView::Fetch)),
    {
        self.client.get_messages()
    }

    /// Takes the client back from an operation that ended, and says how it
    /// ended. A step that has not ended is handed back unchanged.
    pub fn settle(step: Step) -> (r: Result<(Server, Result<Reply, ClientError>), Step>)
        ensures
            match r {
                Ok((server, outcome)) => match outcome {
                    Ok(reply) => step@ == crate::client::StepView::Done(server.client@, reply@),
                    Err(error) => step@ == crate::client::StepView::Failed(
                        server.client@,
                        error@,
                    ),
                },
                Err(same) => step is Continue && same == step,
            },
    {
        match step {
            Step::Done(client, reply) => Ok((Server { client }, Ok(reply))),
            Step::Failed(client, error) => Ok((Server { client }, Err(error))),
            other => Err(other),
        }
    }

    /// What the host is told about an attempt to open a session at
    /// `address`.
    pub fn connection_result(address: &str, outcome: &Result<Reply, ClientError>) -> (out:
        ConnectionResult)
        ensures
            out.success <==> outcome matches Ok(Reply::Connected),
            out.message@ == match outcome {
                Ok(Reply::Connected) => crate::results::connected_text(address@),
                Ok(_) => crate::results::not_connected_text(
                    ClientError::ConnectionError.spec_message(),
                ),
                Err(error) => crate::results::not_connected_text(error.spec_message()),
            },
    {
        ConnectionResult::report(address, outcome)
    }

    /// What the host is told about the posting of a message.
    pub fn send_result(outcome: &Result<Reply, ClientError>) -> (out: SendResult)
        ensures
            out.success <==> outcome matches Ok(Reply::Sent),
            out.message@ == match outcome {
                Ok(Reply::Sent) => crate::results::sent_text(),
                Ok(_) => ClientError::StreamWriteError.spec_message(),
                Err(error) => error.spec_message(),
            },
    {
        SendResult::report(outcome)
    }
}

} // verus!
