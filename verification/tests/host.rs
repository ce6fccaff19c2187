//! What the host decides and what it is told.

use rac_client::client::{Action, Client, ClientError, Event, Reply, Step};
use rac_client::results::{ConnectionResult, SendResult};
use rac_client::server::Server;
use rac_client::session::{update_avatar, Credentials, Outcome, Progress, Setup, Stage, Transport};

#[test]
fn plain_scheme_selects_the_plain_transport() {
    let setup = Setup::plan("rac://host:42666", "alice", "", false).unwrap();
    assert_eq!(
        setup,
        Setup {
            transport: Transport::Rac,
            address: "host:42666".to_string(),
            credentials: Credentials { username: "alice".to_string(), password: None },
            use_tls: false,
        }
    );
    assert_eq!(setup.first(), Stage::FetchSize);
}

#[test]
fn websocket_scheme_selects_the_websocket_transport() {
    let setup = Setup::plan("wrac://host:52666", "bob", "secret", true).unwrap();
    assert_eq!(setup.transport, Transport::Wrac);
    assert_eq!(setup.address, "host:52666");
    assert_eq!(setup.credentials.password, Some("secret".to_string()));
    assert!(setup.use_tls);
    assert_eq!(setup.first(), Stage::Prepare);
}

#[test]
fn only_the_prefix_is_stripped() {
    let setup = Setup::plan("rac://rac://x", "a", "", false).unwrap();
    assert_eq!(setup.address, "rac://x");
    let setup = Setup::plan("rac://", "a", "", false).unwrap();
    assert_eq!(setup.address, "");
}

#[test]
fn unknown_scheme_is_refused() {
    for address in ["host:42666", "", "http://host", "RAC://host", "rac:/host", " rac://host"] {
        assert_eq!(
            Setup::plan(address, "alice", "", false),
            Err("Invalid connection string.".to_string()),
            "address {:?}",
            address
        );
    }
}

#[test]
fn setup_without_password_ends_with_the_count() {
    let setup = Setup::plan("rac://h", "a", "", false).unwrap();
    assert_eq!(setup.advance(Stage::FetchSize, Outcome::Done), Progress::Connected);
}

#[test]
fn setup_with_password_registers_the_user() {
    let setup = Setup::plan("wrac://h", "a", "pw", false).unwrap();
    assert_eq!(setup.advance(Stage::Prepare, Outcome::Done), Progress::Call(Stage::FetchSize));
    assert_eq!(setup.advance(Stage::FetchSize, Outcome::Done), Progress::Call(Stage::Register));
    assert_eq!(setup.advance(Stage::Register, Outcome::Done), Progress::Connected);
}

#[test]
fn taken_name_is_no_failure_of_the_registration() {
    let setup = Setup::plan("rac://h", "a", "pw", false).unwrap();
    let taken = || Outcome::NameTaken("Username is already taken".to_string());
    assert_eq!(setup.advance(Stage::Register, taken()), Progress::Connected);
    assert_eq!(
        setup.advance(Stage::FetchSize, taken()),
        Progress::Refused("Username is already taken".to_string())
    );
}

#[test]
fn failure_refuses_the_session_with_its_text() {
    let setup = Setup::plan("wrac://h", "a", "pw", false).unwrap();
    for stage in [Stage::Prepare, Stage::FetchSize, Stage::Register] {
        assert_eq!(
            setup.advance(stage, Outcome::Failed("Incorrect password".to_string())),
            Progress::Refused("Incorrect password".to_string())
        );
    }
}

#[test]
fn empty_avatar_keeps_the_current_one() {
    assert_eq!(update_avatar(None, String::new()), None);
    assert_eq!(update_avatar(Some("old".to_string()), String::new()), Some("old".to_string()));
    assert_eq!(update_avatar(Some("old".to_string()), "new".to_string()), Some("new".to_string()));
    assert_eq!(update_avatar(None, "new".to_string()), Some("new".to_string()));
}

#[test]
fn connection_result_tells_success_from_failure() {
    assert_eq!(
        ConnectionResult::report("host:1", &Ok(Reply::Connected)),
        ConnectionResult { success: true, message: "Connected to host:1".to_string() }
    );
    assert_eq!(
        ConnectionResult::report("host:1", &Err(ClientError::ConnectionError)),
        ConnectionResult {
            success: false,
            message: "Failed to connect: Connection error occurred".to_string()
        }
    );
    assert_eq!(
        ConnectionResult::report("host:1", &Ok(Reply::Sent)),
        ConnectionResult {
            success: false,
            message: "Failed to connect: Connection error occurred".to_string()
        }
    );
    assert_eq!(
        Server::connection_result("h", &Err(ClientError::ParseError("bad".to_string()))),
        ConnectionResult {
            success: false,
            message: "Failed to connect: Failed to parse message count from response: bad"
                .to_string()
        }
    );
}

#[test]
fn send_result_tells_success_from_failure() {
    assert_eq!(
        SendResult::report(&Ok(Reply::Sent)),
        SendResult { success: true, message: "Message sent".to_string() }
    );
    assert_eq!(
        SendResult::report(&Err(ClientError::AddressNotSet)),
        SendResult { success: false, message: "Address not set for the client".to_string() }
    );
    assert_eq!(
        Server::send_result(&Err(ClientError::StreamWriteError)),
        SendResult { success: false, message: "Error writing to the stream".to_string() }
    );
    assert_eq!(
        SendResult::report(&Ok(Reply::Count(3))),
        SendResult { success: false, message: "Error writing to the stream".to_string() }
    );
}

#[test]
fn server_starts_without_session_and_forgets_it_on_disconnect() {
    let server = Server::new();
    assert_eq!(server.client.address, None);
    let mut server = Server {
        client: Client {
            messages_count: 3,
            user_name: Some("a".to_string()),
            address: Some("h:1".to_string()),
        },
    };
    server.disconnect();
    assert_eq!(server.client.messages_count, 0);
    assert_eq!(server.client.user_name, None);
    assert_eq!(server.client.address, None);
}

#[test]
fn server_runs_a_setup_and_settles_it() {
    let step = Server::new().setup_connection("h:1", "a");
    let step = match Server::settle(step) {
        Err(Step::Continue(exchange, action)) => {
            assert_eq!(action, Action::Connect("h:1".to_string()));
            exchange.advance(Event::Ready)
        },
        other => panic!("the setup has ended: {:?}", other),
    };
    let step = match step {
        Step::Continue(exchange, _) => exchange.advance(Event::Ready),
        other => panic!("the setup has ended: {:?}", other),
    };
    let step = match step {
        Step::Continue(exchange, _) => exchange.advance(Event::Data(b"7".to_vec())),
        other => panic!("the setup has ended: {:?}", other),
    };
    let (server, outcome) = Server::settle(step).unwrap();
    assert_eq!(outcome, Ok(Reply::Connected));
    assert_eq!(server.client.messages_count, 7);
    assert!(Server::connection_result("h:1", &outcome).success);
}

#[test]
fn server_reports_a_fetch_that_failed_apart_from_nothing_new() {
    let (_, outcome) = Server::settle(Server::new().get_messages()).unwrap();
    assert_eq!(outcome, Err(ClientError::AddressNotSet));
    let (_, outcome) = Server::settle(Server::new().send_message("x")).unwrap();
    assert!(!Server::send_result(&outcome).success);
    let (_, outcome) = Server::settle(Server::new().fetch_messages_count()).unwrap();
    assert_eq!(outcome, Err(ClientError::AddressNotSet));
}

#[test]
fn schemes() {
    assert_eq!(Transport::Rac.scheme_chars().iter().collect::<String>(), "rac://");
    assert_eq!(Transport::Wrac.scheme_chars().iter().collect::<String>(), "wrac://");
}

#[test]
fn defaults_have_no_session() {
    let client = Client::default();
    assert_eq!(client.messages_count, 0);
    assert_eq!(client.address, None);
    assert_eq!(client.user_name, None);
    assert_eq!(Server::default().client.address, None);
}
