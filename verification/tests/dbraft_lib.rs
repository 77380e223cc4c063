use std::collections::HashMap;

use tokio::io::AsyncBufReadExt;

use dbraft::communication::event::{
    DatabaseRequest, DatabaseResponse, Event, HeartbeatMessage, InstanceEvent, RaftMessage,
    RaftResponse, WatchdogEvent,
};
use dbraft::db::database::{Database, DatabaseError};
use dbraft::db::request::Request;
use dbraft::db::store::datastore::{DataStore, HashMapStore};
use dbraft::db_connexion::db_connexion::read_database_response;
use dbraft::instances::addresses;
use dbraft::listener::http_endpoint::{
    get_item_reply, put_item_reply, root_message, EndpointError,
};
use dbraft::raft::log_entry::LogEntry;
use dbraft::raft::raft::{Raft, RaftAction};
use dbraft::watchdog::event::{Event as WatchdogRequest, WatchdogResponse};
use dbraft::watchdog::watchdog::Watchdog;
use dbraft::{decimal_string, listen_address, message_from_bytes, InstancePorts};

fn peers(entries: &[(u32, &str)]) -> HashMap<u32, String> {
    entries.iter().map(|(id, addr)| (*id, addr.to_string())).collect()
}

#[test]
fn instance_ports_new_gives_default_ports() {
    let ports = InstancePorts::new();
    assert_eq!(ports.db, 8888);
    assert_eq!(ports.endpoint, 42069);
    assert_eq!(ports.raft, 9000);
}

#[test]
fn instance_ports_add_shifts_every_port() {
    let ports = InstancePorts::new().add(3);
    assert_eq!(ports, InstancePorts { db: 8891, endpoint: 42072, raft: 9003 });
}

#[test]
fn instance_ports_add_composes() {
    let ports = InstancePorts::new();
    assert_eq!(ports.add(2).add(5), ports.add(7));
    assert_eq!(ports.add(0), ports);
}

#[test]
fn message_of_no_bytes_is_empty() {
    assert_eq!(message_from_bytes(&Vec::new()), Vec::<u8>::new());
}

#[test]
fn message_of_unterminated_line_gets_newline() {
    assert_eq!(message_from_bytes(&b"{\"Get\":\"1\"}".to_vec()), b"{\"Get\":\"1\"}\n".to_vec());
}

#[test]
fn message_of_terminated_line_is_kept() {
    assert_eq!(message_from_bytes(&b"abc\n".to_vec()), b"abc\n".to_vec());
}

#[test]
fn message_keeps_only_the_last_line() {
    assert_eq!(message_from_bytes(&b"first\nsecond\n".to_vec()), b"second\n".to_vec());
    assert_eq!(message_from_bytes(&b"first\nsecond".to_vec()), b"second\n".to_vec());
}

#[test]
fn message_drops_carriage_return_before_newline() {
    assert_eq!(message_from_bytes(&b"abc\r\n".to_vec()), b"abc\n".to_vec());
    assert_eq!(message_from_bytes(&b"abc\r\r\n".to_vec()), b"abc\r\n".to_vec());
}

#[test]
fn message_keeps_carriage_return_without_newline() {
    assert_eq!(message_from_bytes(&b"abc\r".to_vec()), b"abc\r\n".to_vec());
}

#[test]
fn message_of_empty_last_line() {
    assert_eq!(message_from_bytes(&b"abc\n\n".to_vec()), b"\n".to_vec());
    assert_eq!(message_from_bytes(&b"\n".to_vec()), b"\n".to_vec());
}

#[test]
fn decimal_notation_of_numbers() {
    assert_eq!(decimal_string(0), "0");
    assert_eq!(decimal_string(7), "7");
    assert_eq!(decimal_string(10), "10");
    assert_eq!(decimal_string(9000), "9000");
    assert_eq!(decimal_string(u32::MAX), "4294967295");
}

#[test]
fn decimal_notation_parses_back() {
    for n in [0u32, 1, 9, 10, 99, 100, 42069, 1_000_000, u32::MAX] {
        assert_eq!(decimal_string(n).parse::<u32>().unwrap(), n);
        assert_eq!(decimal_string(n), format!("{}", n));
    }
}

#[test]
fn listen_address_names_every_interface() {
    assert_eq!(listen_address(8888), "0.0.0.0:8888");
    assert_eq!(listen_address(0), "0.0.0.0:0");
}

#[test]
fn hash_map_store_reads_what_was_written() {
    let mut store: HashMapStore<String> = HashMapStore::new();
    assert!(store.get(&"a".to_string()).is_none());
    assert!(store.put("a".to_string(), "1".to_string()).is_ok());
    assert_eq!(store.get(&"a".to_string()), Some(&"1".to_string()));
    assert!(store.put("a".to_string(), "2".to_string()).is_ok());
    assert_eq!(store.get(&"a".to_string()), Some(&"2".to_string()));
    assert!(store.get(&"b".to_string()).is_none());
}

#[test]
fn database_get_of_missing_item_is_not_found() {
    let db = Database::<String>::new();
    assert!(matches!(db.get("1".to_string()), Err(DatabaseError::NotFound)));
}

#[test]
fn database_get_after_put() {
    let mut db = Database::<String>::new();
    match db.put("1".to_string(), "Hello".to_string()) {
        Ok(DatabaseResponse::PutSuccess { id, item }) => {
            assert_eq!(id, "1");
            assert_eq!(item, "Hello");
        }
        other => panic!("unexpected put answer {:?}", other),
    }
    match db.get("1".to_string()) {
        Ok(DatabaseResponse::GetSuccess(item)) => assert_eq!(item, "Hello"),
        other => panic!("unexpected get answer {:?}", other),
    }
    assert!(matches!(db.get("2".to_string()), Err(DatabaseError::NotFound)));
}

#[test]
fn database_applies_committed_requests() {
    let mut db = Database::<String>::new();
    let put = DatabaseRequest::Put { id: "k".to_string(), item: "v".to_string() };
    assert!(matches!(
        db.handle_raft_response(RaftResponse::Committed, put),
        Ok(DatabaseResponse::PutSuccess { .. })
    ));
    match db.handle_raft_response(RaftResponse::Committed, DatabaseRequest::Get("k".to_string())) {
        Ok(DatabaseResponse::GetSuccess(item)) => assert_eq!(item, "v"),
        other => panic!("unexpected answer {:?}", other),
    }
    assert!(matches!(
        db.handle_raft_response(RaftResponse::Committed, DatabaseRequest::Get("x".to_string())),
        Err(DatabaseError::NotFound)
    ));
}

#[test]
fn client_reads_item_of_either_answer() {
    let got: Result<DatabaseResponse<String>, ()> = Ok(DatabaseResponse::GetSuccess("a".to_string()));
    assert_eq!(read_database_response(got), Ok("a".to_string()));
    let put: Result<DatabaseResponse<String>, ()> =
        Ok(DatabaseResponse::PutSuccess { id: "1".to_string(), item: "b".to_string() });
    assert_eq!(read_database_response(put), Ok("b".to_string()));
    let failed: Result<DatabaseResponse<String>, u8> = Err(7);
    assert_eq!(read_database_response(failed), Err(7));
}

#[test]
fn endpoint_replies_and_status_codes() {
    assert_eq!(get_item_reply::<()>(Some(Ok("x".to_string()))), Ok("x".to_string()));
    assert_eq!(get_item_reply::<()>(Some(Err(()))), Err(EndpointError::NotFound));
    assert_eq!(get_item_reply::<()>(None), Err(EndpointError::UnprocessableEntity));
    assert_eq!(put_item_reply::<()>(Ok("y".to_string())), Ok("y".to_string()));
    assert_eq!(put_item_reply::<()>(Err(())), Err(EndpointError::InternalServerError));
    assert_eq!(EndpointError::NotFound.status_code(), 404);
    assert_eq!(EndpointError::UnprocessableEntity.status_code(), 422);
    assert_eq!(EndpointError::InternalServerError.status_code(), 500);
}

#[test]
fn endpoint_root_text() {
    assert_eq!(
        root_message(),
        "This is a REST endpoint to the backend database\nYou can send GET and POST requests to /item"
    );
}

#[test]
fn addresses_lists_each_instance_once() {
    let instances = peers(&[(0, "a"), (1, "b"), (2, "c")]);
    let mut addrs = addresses(&instances);
    addrs.sort();
    assert_eq!(addrs, vec!["a".to_string(), "b".to_string(), "c".to_string()]);
    assert!(addresses(&HashMap::new()).is_empty());
}

#[test]
fn raft_new_is_blank() {
    let raft = Raft::new();
    assert_eq!(raft.id, None);
    assert_eq!(raft.addr, "");
    assert!(raft.peers.is_empty());
    assert_eq!(raft.current_term, 0);
    assert_eq!(raft.voted_for, None);
    assert!(raft.log.is_empty());
}

#[test]
fn raft_registers_with_its_address() {
    let mut raft = Raft::new();
    raft.set_address(9001);
    assert_eq!(raft.addr, "0.0.0.0:9001");
    match raft.registration_request() {
        Event::InstanceEvent(InstanceEvent::Register { addr }) => assert_eq!(addr, "0.0.0.0:9001"),
        other => panic!("unexpected request {:?}", other),
    }
}

#[test]
fn raft_takes_identity_from_watchdog() {
    let mut raft = Raft::new();
    raft.handle_watchdog_reply(Event::InstanceEvent(InstanceEvent::Pong));
    assert_eq!(raft.id, None);
    raft.handle_watchdog_reply(Event::WatchdogEvent(WatchdogEvent::InstanceRegistered { id: 4 }));
    assert_eq!(raft.id, Some(4));
}

#[test]
fn raft_answers_ping_with_pong() {
    let mut raft = Raft::new();
    match raft.handle_event(Event::InstanceEvent(InstanceEvent::Ping)) {
        RaftAction::Reply(Event::InstanceEvent(InstanceEvent::Pong)) => {}
        other => panic!("unexpected action {:?}", other),
    }
    assert!(matches!(raft.handle_event(Event::InstanceEvent(InstanceEvent::Pong)), RaftAction::Nothing));
    assert!(matches!(
        raft.handle_event(Event::HeartbeatMessage(HeartbeatMessage::Test)),
        RaftAction::Nothing
    ));
    assert!(matches!(raft.handle_event(Event::RaftMessage(RaftMessage::AppendEntry)), RaftAction::Nothing));
}

#[test]
fn raft_takes_peers_from_watchdog() {
    let mut raft = Raft::new();
    let list = peers(&[(0, "0.0.0.0:9000"), (1, "0.0.0.0:9001")]);
    let action =
        raft.handle_event(Event::WatchdogEvent(WatchdogEvent::UpdateRaftInstances { peers: list.clone() }));
    assert!(matches!(action, RaftAction::Nothing));
    assert_eq!(raft.peers, list);
}

#[test]
fn raft_grants_vote_to_current_candidate() {
    let mut raft = Raft::new();
    raft.peers = peers(&[(3, "0.0.0.0:9003")]);
    raft.current_term = 2;
    let request = RaftMessage::RequestVote {
        candidate_term: 2,
        candidate_id: 3,
        last_log_index: 0,
        last_log_term: 0,
    };
    match raft.handle_event(Event::RaftMessage(request)) {
        RaftAction::SendVote { addr, response } => {
            assert_eq!(addr, "0.0.0.0:9003");
            assert_eq!(response, RaftResponse::VoteGranted);
        }
        other => panic!("unexpected action {:?}", other),
    }
    assert_eq!(raft.voted_for, Some(3));
}

#[test]
fn raft_refuses_vote_to_stale_candidate() {
    let mut raft = Raft::new();
    raft.current_term = 5;
    let action = raft.handle_vote_request(4, 3);
    assert!(matches!(action, RaftAction::Nothing));
    assert_eq!(raft.voted_for, None);
}

#[test]
fn raft_broadcasts_database_requests_to_peers() {
    let mut raft = Raft::new();
    raft.peers = peers(&[(0, "a"), (1, "b")]);
    match raft.handle_event(Event::DatabaseRequest(DatabaseRequest::Get("7".to_string()))) {
        RaftAction::Broadcast { mut addrs, request } => {
            addrs.sort();
            assert_eq!(addrs, vec!["a".to_string(), "b".to_string()]);
            assert!(matches!(request, DatabaseRequest::Get(id) if id == "7"));
        }
        other => panic!("unexpected action {:?}", other),
    }
}

#[test]
fn raft_vote_request_describes_last_entry() {
    let mut raft = Raft::new();
    raft.id = Some(2);
    raft.current_term = 3;
    raft.log = vec![
        LogEntry { term: 1, command: "a".to_string() },
        LogEntry { term: 3, command: "b".to_string() },
    ];
    assert_eq!(
        raft.vote_request(),
        RaftMessage::RequestVote { candidate_term: 3, candidate_id: 2, last_log_index: 1, last_log_term: 3 }
    );
}

#[test]
fn raft_election_needs_a_majority() {
    let (no, yes) = (RaftResponse::Committed, RaftResponse::VoteGranted);
    assert!(Raft::election_won(3, &vec![yes, yes, no]));
    assert!(!Raft::election_won(3, &vec![yes, no, no]));
    assert!(!Raft::election_won(4, &vec![yes, yes, no, no]));
    assert!(Raft::election_won(4, &vec![yes, yes, yes, no]));
    assert!(Raft::election_won(0, &vec![yes]));
    assert!(!Raft::election_won(0, &vec![]));
}

#[test]
fn raft_election_timeout_is_random_in_range() {
    let mut seen = std::collections::HashSet::new();
    for _ in 0..200 {
        let ms = Raft::election_timeout_ms();
        assert!((150..300).contains(&ms));
        seen.insert(ms);
    }
    assert!(seen.len() > 1);
}

#[test]
fn watchdog_first_identity_is_zero() {
    let watchdog = Watchdog::new();
    assert!(watchdog.raft_instances.is_empty());
    assert_eq!(watchdog.next_instance_id(), Some(0));
}

#[test]
fn watchdog_registrations_get_consecutive_identities() {
    let mut watchdog = Watchdog::new();
    for expected in 0..4u32 {
        match watchdog.register_new_instance(format!("addr{}", expected)) {
            Event::WatchdogEvent(WatchdogEvent::InstanceRegistered { id }) => assert_eq!(id, expected),
            other => panic!("unexpected reply {:?}", other),
        }
    }
    assert_eq!(watchdog.raft_instances.len(), 4);
    assert_eq!(watchdog.raft_instances.get(&2), Some(&"addr2".to_string()));
}

#[test]
fn watchdog_next_identity_follows_the_largest() {
    let mut watchdog = Watchdog::new();
    watchdog.raft_instances = peers(&[(0, "a"), (5, "b"), (2, "c")]);
    assert_eq!(watchdog.next_instance_id(), Some(6));
    watchdog.raft_instances = peers(&[(u32::MAX, "z")]);
    assert_eq!(watchdog.next_instance_id(), None);
}

#[test]
fn watchdog_handles_ping_and_registration() {
    let mut watchdog = Watchdog::new();
    assert!(matches!(
        watchdog.handle_event(Event::InstanceEvent(InstanceEvent::Ping)),
        Some(Event::InstanceEvent(InstanceEvent::Pong))
    ));
    let reply = watchdog.handle_event(Event::InstanceEvent(InstanceEvent::Register {
        addr: "0.0.0.0:9000".to_string(),
    }));
    assert!(matches!(reply, Some(Event::WatchdogEvent(WatchdogEvent::InstanceRegistered { id: 0 }))));
    assert_eq!(watchdog.raft_instances, peers(&[(0, "0.0.0.0:9000")]));
    assert!(watchdog.handle_event(Event::InstanceEvent(InstanceEvent::Pong)).is_none());
    assert!(watchdog.handle_event(Event::RaftResponse(RaftResponse::Committed)).is_none());
}

#[test]
fn watchdog_forgets_dead_instances() {
    let mut watchdog = Watchdog::new();
    watchdog.raft_instances = peers(&[(0, "a"), (1, "b"), (2, "c")]);
    watchdog.remove_instances(&vec![0, 2, 9]);
    assert_eq!(watchdog.raft_instances, peers(&[(1, "b")]));
    watchdog.remove_instance(1);
    assert!(watchdog.raft_instances.is_empty());
}

#[test]
fn watchdog_broadcasts_the_instance_list() {
    let mut watchdog = Watchdog::new();
    watchdog.raft_instances = peers(&[(0, "a"), (1, "b")]);
    let (mut addrs, event) = watchdog.instances_update();
    addrs.sort();
    assert_eq!(addrs, vec!["a".to_string(), "b".to_string()]);
    match event {
        Event::WatchdogEvent(WatchdogEvent::UpdateRaftInstances { peers: list }) => {
            assert_eq!(list, watchdog.raft_instances)
        }
        other => panic!("unexpected event {:?}", other),
    }
}

#[test]
fn message_types_carry_their_fields() {
    let request: Request<String> = Request::Put { id: "1".to_string(), item: "x".to_string() };
    assert!(matches!(request, Request::Put { ref id, .. } if id == "1"));
    let register = WatchdogRequest::Register { addr: "a".to_string() };
    assert!(matches!(register, WatchdogRequest::Register { .. }));
    assert_eq!(WatchdogResponse::Registered { id: 1 }, WatchdogResponse::Registered { id: 1 });
}

#[test]
fn raft_cannot_grant_vote_to_unknown_candidate() {
    let mut raft = Raft::new();
    raft.current_term = 1;
    let request = |term: u32| {
        Event::RaftMessage(RaftMessage::RequestVote {
            candidate_term: term,
            candidate_id: 8,
            last_log_index: 0,
            last_log_term: 0,
        })
    };
    assert!(!raft.can_handle_event(&request(1)));
    assert!(raft.can_handle_event(&request(0)));
    assert!(raft.can_handle_event(&Event::InstanceEvent(InstanceEvent::Ping)));
    raft.peers = peers(&[(8, "x")]);
    assert!(raft.can_handle_event(&request(1)));
}

#[test]
fn raft_peers_follow_the_watchdog_list() {
    let mut watchdog = Watchdog::new();
    watchdog.register_new_instance("0.0.0.0:9000".to_string());
    watchdog.register_new_instance("0.0.0.0:9001".to_string());
    let (_, update) = watchdog.instances_update();
    let mut raft = Raft::new();
    assert!(raft.can_handle_event(&update));
    assert!(matches!(raft.handle_event(update), RaftAction::Nothing));
    assert_eq!(raft.peers, watchdog.raft_instances);
}

#[test]
fn watchdog_identity_after_removal_follows_the_largest_left() {
    let mut watchdog = Watchdog::new();
    watchdog.raft_instances = peers(&[(0, "a"), (1, "b"), (4, "c")]);
    watchdog.remove_instance(4);
    assert_eq!(watchdog.next_instance_id(), Some(2));
    watchdog.remove_instances(&vec![0, 1]);
    assert_eq!(watchdog.next_instance_id(), Some(0));
}

async fn last_line_as_a_line_reader_yields(bytes: &[u8]) -> Vec<u8> {
    let mut lines = tokio::io::BufReader::new(bytes).lines();
    let mut result = String::new();
    while let Some(line) = lines.next_line().await.unwrap() {
        result = format!("{}\n", line);
    }
    result.into()
}

#[test]
fn message_matches_a_line_reader() {
    let inputs: Vec<&[u8]> = vec![
        b"",
        b"\n",
        b"\r\n",
        b"\r",
        b"a",
        b"a\n",
        b"a\r\n",
        b"a\r\r\n",
        b"a\rb",
        b"a\nb",
        b"a\nb\n",
        b"a\n\n",
        b"a\n\r\n",
        b"{\"Get\":\"1\"}",
        b"one\ntwo\nthree",
        b"\n\nx\r",
    ];
    let runtime = tokio::runtime::Builder::new_current_thread().build().unwrap();
    for input in inputs {
        let expected = runtime.block_on(last_line_as_a_line_reader_yields(input));
        assert_eq!(message_from_bytes(&input.to_vec()), expected, "input {:?}", input);
    }
}
