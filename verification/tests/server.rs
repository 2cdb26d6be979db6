use raft::address::{ServerAddress, SocketAddress};
use raft::config::Timeouts;
use raft::connection::{Message, PacketType};
use raft::server::{wins, Server, ServerState};

fn addr(ip: u32) -> ServerAddress {
    ServerAddress(SocketAddress::V4 { ipv4: ip, port: 8000 })
}

fn server(peers: Vec<ServerAddress>) -> Server {
    Server::new(peers, Timeouts::new(50, 150, 300).unwrap())
}

fn msg(message_type: PacketType, term: u64, peer: ServerAddress) -> Message {
    Message { message_type, term, peer }
}

fn vote_request(term: u64, peer: ServerAddress) -> Message {
    msg(PacketType::VoteRequest { last_log_index: 0, last_log_term: 0 }, term, peer)
}

fn vote_response(granted: bool, term: u64, peer: ServerAddress) -> Message {
    msg(PacketType::VoteResponse { is_granted: granted }, term, peer)
}

fn ack(did_append: bool, term: u64, peer: ServerAddress) -> Message {
    msg(PacketType::AppendEntriesAck { did_append }, term, peer)
}

fn leader_with_one_peer() -> Server {
    let mut s = server(vec![addr(1)]);
    s.start_election_with_timeout(0, 200);
    assert_eq!(s.handle_message(vote_response(true, 1, addr(1))), None);
    assert_eq!(s.state(), ServerState::Leader);
    s
}

#[test]
fn new_server_is_a_follower_in_term_zero() {
    let s = server(vec![addr(1), addr(2)]);
    assert_eq!(s.state(), ServerState::Follower);
    assert_eq!(s.term(), 0);
    assert_eq!(s.last_vote(), None);
    assert_eq!(s.peers(), &vec![addr(1), addr(2)]);
    assert_eq!(s.election_results().granted_count(), 0);
    assert_eq!(s.get_current_duration(), 50);
    assert_eq!(s.timeouts().election_timeout_min(), 150);
}

#[test]
fn term_timeout_lies_in_the_range() {
    let s = server(vec![]);
    for _ in 0..200 {
        let t = s.get_term_timeout();
        assert!(150 <= t && t < 300, "timeout {} out of range", t);
    }
    let narrow = Server::new(vec![], Timeouts::new(1, 7, 8).unwrap());
    for _ in 0..20 {
        assert_eq!(narrow.get_term_timeout(), 7);
    }
}

#[test]
fn increment_term_wraps_and_forgets_the_vote() {
    let mut s = server(vec![]);
    s.handle_voterequest(&vote_request(0, addr(1)));
    assert_eq!(s.last_vote(), Some(addr(1)));
    assert_eq!(s.increment_term(), 1);
    assert_eq!(s.last_vote(), None);
    assert_eq!(s.set_term(u64::MAX), u64::MAX);
    assert_eq!(s.increment_term(), 0);
    assert_eq!(s.term(), 0);
}

#[test]
fn set_term_and_reset_vote_forget_the_vote() {
    let mut s = server(vec![]);
    s.handle_voterequest(&vote_request(2, addr(1)));
    assert_eq!(s.term(), 2);
    assert_eq!(s.last_vote(), Some(addr(1)));
    s.reset_vote();
    assert_eq!(s.last_vote(), None);
    s.handle_voterequest(&vote_request(2, addr(3)));
    assert_eq!(s.set_term(7), 7);
    assert_eq!(s.last_vote(), None);
    assert_eq!(s.term(), 7);
}

#[test]
fn stale_heartbeat_is_refused() {
    let mut s = server(vec![]);
    s.set_term(5);
    s.handle_voterequest(&vote_request(5, addr(1)));
    let reply = s.handle_append(&msg(PacketType::AppendEntries, 4, addr(2)));
    assert_eq!(reply, ack(false, 5, addr(2)));
    assert_eq!(s.term(), 5);
    assert_eq!(s.last_vote(), Some(addr(1)));
}

#[test]
fn heartbeat_of_the_current_term_is_accepted_without_change() {
    let mut s = server(vec![addr(2)]);
    s.start_election_with_timeout(10, 200);
    let reply = s.handle_append(&msg(PacketType::AppendEntries, 1, addr(2)));
    assert_eq!(reply, ack(true, 1, addr(2)));
    assert_eq!(s.state(), ServerState::Candidate { election_ends_at: 210 });
    assert_eq!(s.term(), 1);
}

#[test]
fn newer_heartbeat_makes_a_leader_follow() {
    let mut s = leader_with_one_peer();
    let reply = s.handle_message(msg(PacketType::AppendEntries, 9, addr(4)));
    assert_eq!(reply, Some(ack(true, 9, addr(4))));
    assert_eq!(s.state(), ServerState::Follower);
    assert_eq!(s.term(), 9);
    assert_eq!(s.last_vote(), None);
}

#[test]
fn newer_heartbeat_makes_a_candidate_follow() {
    let mut s = server(vec![addr(2)]);
    s.start_election_with_timeout(0, 200);
    let reply = s.handle_message(msg(PacketType::AppendEntries, 3, addr(2)));
    assert_eq!(reply, Some(ack(true, 3, addr(2))));
    assert_eq!(s.state(), ServerState::Follower);
    assert_eq!(s.term(), 3);
}

#[test]
fn one_vote_per_term() {
    let mut s = server(vec![addr(1), addr(2)]);
    assert_eq!(s.handle_message(vote_request(1, addr(1))), Some(vote_response(true, 1, addr(1))));
    assert_eq!(s.handle_message(vote_request(1, addr(1))), Some(vote_response(true, 1, addr(1))));
    assert_eq!(s.handle_message(vote_request(1, addr(2))), Some(vote_response(false, 1, addr(2))));
    assert_eq!(s.last_vote(), Some(addr(1)));
    assert_eq!(s.handle_message(vote_request(2, addr(2))), Some(vote_response(true, 2, addr(2))));
    assert_eq!(s.last_vote(), Some(addr(2)));
    assert_eq!(s.handle_message(vote_request(1, addr(1))), Some(vote_response(false, 2, addr(1))));
    assert_eq!(s.term(), 2);
}

#[test]
fn leader_moves_to_a_newer_term_on_a_vote_request_but_keeps_leading() {
    let mut s = leader_with_one_peer();
    assert_eq!(s.handle_message(vote_request(4, addr(3))), Some(vote_response(true, 4, addr(3))));
    assert_eq!(s.state(), ServerState::Leader);
    assert_eq!(s.term(), 4);
}

#[test]
fn start_election_with_timeout_sets_up_the_election() {
    let mut s = server(vec![addr(1), addr(2), addr(1)]);
    s.handle_voterequest(&vote_request(3, addr(1)));
    s.start_election_with_timeout(1000, 250);
    assert_eq!(s.term(), 4);
    assert_eq!(s.last_vote(), None);
    assert_eq!(s.state(), ServerState::Candidate { election_ends_at: 1250 });
    assert_eq!(s.election_results().get(addr(1)), Some(false));
    assert_eq!(s.election_results().get(addr(2)), Some(false));
    assert_eq!(s.election_results().granted_count(), 0);
}

#[test]
fn start_election_draws_a_deadline_in_range() {
    for _ in 0..50 {
        let mut s = server(vec![addr(1)]);
        s.start_election(1000);
        match s.state() {
            ServerState::Candidate { election_ends_at } => {
                assert!(1150 <= election_ends_at && election_ends_at < 1300);
            }
            other => panic!("not a candidate: {:?}", other),
        }
        assert_eq!(s.term(), 1);
    }
}

#[test]
fn candidate_needs_a_majority() {
    let mut s = server(vec![addr(1), addr(2), addr(3), addr(4)]);
    s.start_election_with_timeout(0, 200);
    assert_eq!(s.handle_message(vote_response(true, 1, addr(1))), None);
    assert!(matches!(s.state(), ServerState::Candidate { .. }));
    assert_eq!(s.handle_message(vote_response(false, 1, addr(2))), None);
    assert!(matches!(s.state(), ServerState::Candidate { .. }));
    assert_eq!(s.handle_message(vote_response(true, 1, addr(1))), None);
    assert!(matches!(s.state(), ServerState::Candidate { .. }));
    assert_eq!(s.election_results().granted_count(), 1);
    assert_eq!(s.handle_message(vote_response(true, 1, addr(3))), None);
    assert_eq!(s.state(), ServerState::Leader);
}

#[test]
fn vote_from_an_unknown_server_is_counted() {
    let mut s = server(vec![addr(1), addr(2)]);
    s.start_election_with_timeout(0, 200);
    s.handle_voteresponse(addr(9), true);
    assert_eq!(s.election_results().get(addr(9)), Some(true));
    assert_eq!(s.state(), ServerState::Leader);
}

#[test]
fn single_server_cluster_wins_on_any_answer() {
    let mut s = server(vec![]);
    s.start_election_with_timeout(0, 200);
    s.handle_message(vote_response(false, 1, addr(5)));
    assert_eq!(s.state(), ServerState::Leader);
}

#[test]
fn unexpected_messages_are_dropped() {
    let mut follower = server(vec![addr(1)]);
    assert_eq!(follower.handle_message(vote_response(true, 5, addr(1))), None);
    assert_eq!(follower.handle_message(ack(true, 5, addr(1))), None);
    assert_eq!(follower.term(), 0);
    assert_eq!(follower.state(), ServerState::Follower);

    let mut candidate = server(vec![addr(1), addr(2)]);
    candidate.start_election_with_timeout(0, 200);
    assert_eq!(candidate.handle_message(vote_request(7, addr(1))), None);
    assert_eq!(candidate.handle_message(ack(true, 7, addr(1))), None);
    assert_eq!(candidate.term(), 1);

    let mut leader = leader_with_one_peer();
    assert_eq!(leader.handle_message(ack(true, 1, addr(1))), None);
    assert_eq!(leader.handle_message(vote_response(true, 8, addr(1))), None);
    assert_eq!(leader.term(), 1);
    assert_eq!(leader.state(), ServerState::Leader);
}

#[test]
fn heartbeat_messages_by_role() {
    let follower = server(vec![addr(1), addr(2)]);
    assert!(follower.heartbeat_messages().is_empty());

    let mut candidate = server(vec![addr(1), addr(2)]);
    candidate.start_election_with_timeout(0, 200);
    candidate.start_election_with_timeout(0, 200);
    assert_eq!(
        candidate.heartbeat_messages(),
        vec![
            msg(PacketType::VoteRequest { last_log_index: 0, last_log_term: 1 }, 2, addr(1)),
            msg(PacketType::VoteRequest { last_log_index: 0, last_log_term: 1 }, 2, addr(2)),
        ]
    );

    let leader = leader_with_one_peer();
    assert_eq!(leader.heartbeat_messages(), vec![msg(PacketType::AppendEntries, 1, addr(1))]);
}

#[test]
fn majority_arithmetic() {
    assert!(wins(0, 0));
    assert!(!wins(0, 1));
    assert!(wins(1, 1));
    assert!(!wins(0, 2));
    assert!(wins(1, 2));
    assert!(!wins(1, 3));
    assert!(wins(2, 3));
    assert!(wins(2, 4));
    assert!(!wins(1, 4));
    assert!(wins(usize::MAX / 2 + 1, usize::MAX));
    assert!(!wins(usize::MAX / 2, usize::MAX));
}

#[test]
fn election_timer_by_role() {
    let follower = server(vec![addr(1)]);
    for _ in 0..50 {
        match follower.election_timer() {
            raft::server::ElectionTimer::After { millis } => assert!(150 <= millis && millis < 300),
            other => panic!("unexpected timer {:?}", other),
        }
    }
    let mut candidate = server(vec![addr(1), addr(2)]);
    candidate.start_election_with_timeout(40, 160);
    assert_eq!(candidate.election_timer(), raft::server::ElectionTimer::At { deadline: 200 });
    let leader = leader_with_one_peer();
    assert_eq!(leader.election_timer(), raft::server::ElectionTimer::Off);
}

#[test]
fn election_timeout_by_role() {
    let mut leader = leader_with_one_peer();
    leader.on_election_timeout(5000);
    assert_eq!(leader.state(), ServerState::Leader);
    assert_eq!(leader.term(), 1);

    let mut follower = server(vec![addr(1)]);
    follower.handle_voterequest(&vote_request(3, addr(1)));
    follower.on_election_timeout(5000);
    assert_eq!(follower.term(), 4);
    assert_eq!(follower.last_vote(), None);
    match follower.state() {
        ServerState::Candidate { election_ends_at } => {
            assert!(5150 <= election_ends_at && election_ends_at < 5300)
        }
        other => panic!("not a candidate: {:?}", other),
    }

    let mut candidate = server(vec![addr(1), addr(2)]);
    candidate.start_election_with_timeout(0, 200);
    candidate.handle_voteresponse(addr(1), false);
    candidate.on_election_timeout(200);
    assert_eq!(candidate.term(), 2);
    assert_eq!(candidate.election_results().get(addr(1)), Some(false));
    assert!(matches!(candidate.state(), ServerState::Candidate { .. }));
}

#[test]
fn heartbeat_tick_pauses_a_candidate_until_its_election_ends() {
    let follower = server(vec![addr(1)]);
    assert_eq!(follower.heartbeat_tick(), (vec![], None));

    let mut candidate = server(vec![addr(1)]);
    candidate.start_election_with_timeout(100, 200);
    assert_eq!(
        candidate.heartbeat_tick(),
        (vec![msg(PacketType::VoteRequest { last_log_index: 0, last_log_term: 0 }, 1, addr(1))], Some(300))
    );

    let leader = leader_with_one_peer();
    assert_eq!(leader.heartbeat_tick(), (vec![msg(PacketType::AppendEntries, 1, addr(1))], None));
}

#[test]
fn closed_input_ends_with_an_error_only_for_a_leader() {
    let follower = server(vec![addr(1)]);
    assert_eq!(follower.incoming_closed(), Ok(()));
    let mut candidate = server(vec![addr(1), addr(2)]);
    candidate.start_election_with_timeout(0, 200);
    assert_eq!(candidate.incoming_closed(), Ok(()));
    let leader = leader_with_one_peer();
    assert_eq!(leader.incoming_closed(), Err(raft::connection::ConnectionError));
}

#[test]
fn one_vote_per_term_across_handler_calls() {
    let mut s = server(vec![addr(1), addr(2)]);
    let first = s.handle_voterequest(&vote_request(3, addr(1)));
    assert_eq!(first, vote_response(true, 3, addr(1)));
    s.handle_append(&msg(PacketType::AppendEntries, 3, addr(2)));
    s.handle_voteresponse(addr(2), true);
    s.handle_message(ack(true, 3, addr(2)));
    let second = s.handle_voterequest(&vote_request(3, addr(2)));
    assert_eq!(second, vote_response(false, 3, addr(2)));
    let again = s.handle_voterequest(&vote_request(3, addr(1)));
    assert_eq!(again, vote_response(true, 3, addr(1)));
}

#[test]
fn term_never_decreases_across_events() {
    let mut s = server(vec![addr(1)]);
    let mut last = s.term();
    s.handle_message(vote_request(5, addr(1)));
    assert!(s.term() >= last);
    last = s.term();
    s.on_election_timeout(10);
    assert!(s.term() >= last);
    last = s.term();
    s.handle_append(&msg(PacketType::AppendEntries, 2, addr(1)));
    assert!(s.term() >= last);
    last = s.term();
    s.handle_voteresponse(addr(1), true);
    assert!(s.term() >= last);
    assert_eq!(s.term(), 6);
}
