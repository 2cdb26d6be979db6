use vstd::prelude::*;

use crate::address::ServerAddress;
use crate::config::{valid_timeouts, Timeouts};
use crate::connection::{ConnectionError, Message, PacketType};
use crate::election::{all_not_granted, granted_voters, ElectionResults};

verus! {

/// The role of a server in its current term. A candidate's election ends at a
/// point in time, in milliseconds on the clock that drives the server.
#[derive(Clone, Copy, Debug, PartialEq, Eq, Structural)]
pub enum ServerState {
    Follower,
    Candidate { election_ends_at: u64 },
    Leader,
}

/// What a server waits for besides messages: a leader for nothing, a
/// candidate for the end of its election (a point in time), a follower for a
/// leader for some milliseconds.
#[derive(Clone, Copy, Debug, PartialEq, Eq, Structural)]
pub enum ElectionTimer {
    Off,
    At { deadline: u64 },
    After { millis: u64 },
}

/// What a server is, as the contracts speak of it.
pub struct ServerView {
    pub peers: Seq<ServerAddress>,
    pub state: ServerState,
    pub election_results: Map<ServerAddress, bool>,
    pub last_vote: Option<ServerAddress>,
    pub term: u64,
    pub heartbeat_millis: u64,
    pub election_timeout_min: u64,
    pub election_timeout_max: u64,
}

/// The term after `term`, wrapping to 0 after the largest one.
pub open spec fn next_term(term: u64) -> u64 {
    if term == u64::MAX {
        0
    } else {
        (term + 1) as u64
    }
}

/// Whether a candidate with `granted` votes from other servers, plus its own,
/// has more than half of the votes of a cluster of itself and `peers` servers.
/// Its own vote is only counted here: standing for election records no vote
/// (see `ServerView::after_start_election`).
pub open spec fn wins_election(granted: nat, peers: nat) -> bool {
    granted + 1 > (peers + 1) / 2
}

/// Whether a server that voted for `last_vote` in the current term may vote
/// for `candidate`: it did not vote yet, or voted for the same server.
pub open spec fn may_vote_for(last_vote: Option<ServerAddress>, candidate: ServerAddress) -> bool {
    match last_vote {
        None => true,
        Some(p) => p == candidate,
    }
}

/// The heartbeat a leader in `term` sends to `peer`.
pub open spec fn append_entries_to(term: u64, peer: ServerAddress) -> Message {
    Message { message_type: PacketType::AppendEntries, term, peer }
}

/// The vote request a candidate in `term` sends to `peer`.
pub open spec fn vote_request_to(term: u64, peer: ServerAddress) -> Message {
    Message {
        message_type: PacketType::VoteRequest { last_log_index: 0, last_log_term: (term - 1) as u64 },
        term,
        peer,
    }
}

impl ServerView {
    /// The server has no vote in its current term.
    pub open spec fn after_reset_vote(self) -> ServerView {
        ServerView { last_vote: None, ..self }
    }

    /// The server moves to `new_term`, where it has not voted.
    pub open spec fn after_set_term(self, new_term: u64) -> ServerView {
        ServerView { term: new_term, last_vote: None, ..self }
    }

    /// The server moves to the next term, where it has not voted.
    pub open spec fn after_increment_term(self) -> ServerView {
        self.after_set_term(next_term(self.term))
    }

    /// The server stands for election in the next term, until `now + timeout`,
    /// with no vote heard from any peer. Moving to the next term forgets the
    /// vote, and no vote for itself is recorded in its place: a candidate's own
    /// vote exists only in the count of `wins_election`.
    pub open spec fn after_start_election(self, now: u64, timeout: u64) -> ServerView {
        ServerView {
            state: ServerState::Candidate { election_ends_at: (now + timeout) as u64 },
            election_results: all_not_granted(self.peers),
            ..self.after_increment_term()
        }
    }

    /// An election timer that ran out at `now`: a candidate or a follower
    /// stands for election; a leader has no such timer and stays as it is.
    pub open spec fn after_election_timeout(self, now: u64, timeout: u64) -> ServerView {
        if self.state == ServerState::Leader {
            self
        } else {
            self.after_start_election(now, timeout)
        }
    }

    /// A heartbeat: a newer term makes the server a follower in that term (the
    /// sender is then taken for a valid leader); a heartbeat of the current
    /// term is accepted but changes nothing, so a candidate stays a candidate.
    /// The answer accepts the heartbeat when its term is not older than the
    /// server's, and carries the server's term after the heartbeat.
    pub open spec fn after_append(self, packet: Message) -> (ServerView, Message) {
        let next = if packet.term > self.term {
            ServerView { state: ServerState::Follower, ..self.after_set_term(packet.term) }
        } else {
            self
        };
        let reply = Message {
            message_type: PacketType::AppendEntriesAck { did_append: packet.term >= self.term },
            term: next.term,
            peer: packet.peer,
        };
        (next, reply)
    }

    /// A vote request: an older term is refused; a newer one moves the server
    /// to that term first. The vote goes to the candidate if the server has
    /// not voted in its term, or voted for that candidate already.
    pub open spec fn after_vote_request(self, packet: Message) -> (ServerView, Message) {
        if packet.term >= self.term {
            let current = if packet.term > self.term {
                self.after_set_term(packet.term)
            } else {
                self
            };
            let granted = may_vote_for(current.last_vote, packet.peer);
            let next = if current.last_vote is None {
                ServerView { last_vote: Some(packet.peer), ..current }
            } else {
                current
            };
            let reply = Message {
                message_type: PacketType::VoteResponse { is_granted: granted },
                term: next.term,
                peer: packet.peer,
            };
            (next, reply)
        } else {
            let reply = Message {
                message_type: PacketType::VoteResponse { is_granted: false },
                term: self.term,
                peer: packet.peer,
            };
            (self, reply)
        }
    }

    /// A vote heard from `peer`: it is recorded, and the server leads once
    /// more than half of the cluster voted for it.
    pub open spec fn after_vote_response(self, peer: ServerAddress, is_granted: bool) -> ServerView {
        let results = self.election_results.insert(peer, is_granted);
        ServerView {
            election_results: results,
            state: if wins_election(granted_voters(results).len(), self.peers.len()) {
                ServerState::Leader
            } else {
                self.state
            },
            ..self
        }
    }

    /// A message handled as the server's role in its term asks: a leader
    /// answers heartbeats and vote requests; a candidate answers heartbeats
    /// and counts votes; a follower answers heartbeats and vote requests.
    /// Anything else is dropped.
    pub open spec fn after_message(self, packet: Message) -> (ServerView, Option<Message>) {
        match self.state {
            ServerState::Leader => match packet.message_type {
                PacketType::AppendEntries => {
                    let (next, reply) = self.after_append(packet);
                    (next, Some(reply))
                },
                PacketType::VoteRequest { .. } => {
                    let (next, reply) = self.after_vote_request(packet);
                    (next, Some(reply))
                },
                _ => (self, None),
            },
            ServerState::Candidate { .. } => match packet.message_type {
                PacketType::AppendEntries => {
                    let (next, reply) = self.after_append(packet);
                    (next, Some(reply))
                },
                PacketType::VoteResponse { is_granted } => (
                    self.after_vote_response(packet.peer, is_granted),
                    None,
                ),
                _ => (self, None),
            },
            ServerState::Follower => match packet.message_type {
                PacketType::AppendEntries => {
                    let (next, reply) = self.after_append(packet);
                    (next, Some(reply))
                },
                PacketType::VoteRequest { .. } => {
                    let (next, reply) = self.after_vote_request(packet);
                    (next, Some(reply))
                },
                _ => (self, None),
            },
        }
    }

    /// How long the heartbeat task then pauses: a candidate until its
    /// election ends; otherwise not at all.
    pub open spec fn heartbeat_pause(self) -> Option<u64> {
        match self.state {
            ServerState::Candidate { election_ends_at } => Some(election_ends_at),
            _ => None,
        }
    }

    /// How the message task ends when no more messages can arrive: with an
    /// error for a leader, and without one otherwise.
    pub open spec fn incoming_closed_result(self) -> Result<(), ConnectionError> {
        if self.state == ServerState::Leader {
            Err(ConnectionError)
        } else {
            Ok(())
        }
    }

    /// What the server sends on a heartbeat tick: a leader sends a heartbeat,
    /// and a candidate a vote request, to every peer in order; a follower
    /// sends nothing.
    pub open spec fn heartbeat_messages(self) -> Seq<Message> {
        match self.state {
            ServerState::Leader => Seq::new(
                self.peers.len(),
                |i: int| append_entries_to(self.term, self.peers[i]),
            ),
            ServerState::Candidate { .. } => Seq::new(
                self.peers.len(),
                |i: int| vote_request_to(self.term, self.peers[i]),
            ),
            ServerState::Follower => Seq::empty(),
        }
    }
}

/// Calls `rand::Rng::gen_range` with the range `min..max` on the generator
/// that `rand::thread_rng` returns. The contract claims what rand documents
/// for an exclusive range: the value lies in `[min, max)`, and the call needs
/// a non-empty range (it panics on an empty one). Which value comes back is
/// left unsaid: it is random. The generator itself panics if the operating
/// system cannot seed it; that is not an input and is not excluded here.
#[verifier::external_body]
fn random_in_range(min: u64, max: u64) -> (r: u64)
    requires
        min < max,
    ensures
        min <= r < max,
{
    rand::Rng::gen_range(&mut rand::thread_rng(), min..max)
}

/// Whether `granted` votes from other servers, plus the server's own, are
/// more than half of the votes of itself and `peers` servers.
pub fn wins(granted: usize, peers: usize) -> (r: bool)
    ensures
        r == wins_election(granted as nat, peers as nat),
{
    // (peers + 1) / 2 without overflow
    let half = peers / 2 + peers % 2;
    granted >= half
}

/// A Raft server: its peers, its role and term, the vote it cast in that term,
/// the votes it heard as a candidate, and its timing.
pub struct Server {
    peers: Vec<ServerAddress>,
    state: ServerState,
    election_results: ElectionResults,
    last_vote: Option<ServerAddress>,
    term: u64,
    timeouts: Timeouts,
}

impl View for Server {
    type V = ServerView;

    closed spec fn view(&self) -> ServerView {
        ServerView {
            peers: self.peers@,
            state: self.state,
            election_results: self.election_results@,
            last_vote: self.last_vote,
            term: self.term,
            heartbeat_millis: self.timeouts.spec_heartbeat_millis(),
            election_timeout_min: self.timeouts.spec_election_timeout_min(),
            election_timeout_max: self.timeouts.spec_election_timeout_max(),
        }
    }
}

impl Server {
    /// A follower in term 0 that has not voted, with the given peers and timing.
    pub fn new(peers: Vec<ServerAddress>, timeouts: Timeouts) -> (r: Server)
        ensures
            r@.peers == peers@,
            r@.state == ServerState::Follower,
            r@.election_results == Map::<ServerAddress, bool>::empty(),
            r@.last_vote == None::<ServerAddress>,
            r@.term == 0,
            r@.heartbeat_millis == timeouts.spec_heartbeat_millis(),
            r@.election_timeout_min == timeouts.spec_election_timeout_min(),
            r@.election_timeout_max == timeouts.spec_election_timeout_max(),
    {
        Server {
            peers,
            state: ServerState::Follower,
            election_results: ElectionResults::new(),
            last_vote: None,
            term: 0,
            timeouts,
        }
    }

    /// The timing always satisfies `0 < heartbeat < min < max`.
    pub fn timeouts(&self) -> (r: &Timeouts)
        ensures
            r.spec_heartbeat_millis() == self@.heartbeat_millis,
            r.spec_election_timeout_min() == self@.election_timeout_min,
            r.spec_election_timeout_max() == self@.election_timeout_max,
            valid_timeouts(
                self@.heartbeat_millis,
                self@.election_timeout_min,
                self@.election_timeout_max,
            ),
    {
        // the getter's contract carries the ordering of the timeouts
        let _ = self.timeouts.heartbeat_millis();
        &self.timeouts
    }

    /// The servers of the cluster other than this one.
    pub fn peers(&self) -> (r: &Vec<ServerAddress>)
        ensures
            r@ == self@.peers,
    {
        &self.peers
    }

    /// The role in the current term.
    pub fn state(&self) -> (r: ServerState)
        ensures
            r == self@.state,
    {
        self.state
    }

    /// The current term.
    pub fn term(&self) -> (r: u64)
        ensures
            r == self@.term,
    {
        self.term
    }

    /// The server voted for in the current term, if any.
    pub fn last_vote(&self) -> (r: Option<ServerAddress>)
        ensures
            r == self@.last_vote,
    {
        self.last_vote
    }

    /// The votes heard in the current election.
    pub fn election_results(&self) -> (r: &ElectionResults)
        ensures
            r@ == self@.election_results,
    {
        &self.election_results
    }

    /// The heartbeat interval, in milliseconds.
    pub fn get_current_duration(&self) -> (r: u64)
        ensures
            r == self@.heartbeat_millis,
    {
        self.timeouts.heartbeat_millis()
    }

    /// A random election timeout, in milliseconds, in
    /// `[election_timeout_min, election_timeout_max)`: how long a follower
    /// waits for a leader, and how long an election lasts.
    pub fn get_term_timeout(&self) -> (r: u64)
        ensures
            self@.election_timeout_min <= r < self@.election_timeout_max,
    {
        let min = self.timeouts.election_timeout_min();
        let max = self.timeouts.election_timeout_max();
        random_in_range(min, max)
    }

    /// Forgets the vote of the current term.
    pub fn reset_vote(&mut self)
        ensures
            final(self)@ == old(self)@.after_reset_vote(),
    {
        self.last_vote = None;
    }

    /// Moves to the next term (wrapping after the largest) with no vote, and
    /// returns it.
    pub fn increment_term(&mut self) -> (r: u64)
        ensures
            final(self)@ == old(self)@.after_increment_term(),
            r == final(self)@.term,
    {
        self.term = if self.term == u64::MAX {
            0
        } else {
            self.term + 1
        };
        self.reset_vote();
        self.term
    }

    /// Moves to `new_term` with no vote, and returns it.
    pub fn set_term(&mut self, new_term: u64) -> (r: u64)
        ensures
            final(self)@ == old(self)@.after_set_term(new_term),
            r == new_term,
    {
        self.term = new_term;
        self.reset_vote();
        self.term
    }

    /// Stands for election in the next term until `now + timeout`.
    pub fn start_election_with_timeout(&mut self, now: u64, timeout: u64)
        requires
            now + timeout <= u64::MAX,
        ensures
            final(self)@ == old(self)@.after_start_election(now, timeout),
    {
        self.increment_term();
        self.state = ServerState::Candidate { election_ends_at: now + timeout };
        self.election_results = ElectionResults::for_peers(&self.peers);
    }

    /// Stands for election in the next term, for a random election timeout
    /// from `now`.
    pub fn start_election(&mut self, now: u64)
        requires
            now + old(self)@.election_timeout_max <= u64::MAX,
        ensures
            final(self)@.state is Candidate,
            old(self)@.election_timeout_min <= final(self)@.state->election_ends_at - now
                < old(self)@.election_timeout_max,
            final(self)@ == old(self)@.after_start_election(
                now,
                (final(self)@.state->election_ends_at - now) as u64,
            ),
    {
        let timeout = self.get_term_timeout();
        self.start_election_with_timeout(now, timeout);
    }

    /// What to wait for besides messages. A follower's wait is a fresh random
    /// election timeout.
    pub fn election_timer(&self) -> (r: ElectionTimer)
        ensures
            self@.state == ServerState::Leader ==> r == ElectionTimer::Off,
            self@.state matches ServerState::Candidate { election_ends_at } ==> r == (
            ElectionTimer::At { deadline: election_ends_at }),
            self@.state == ServerState::Follower ==> (r matches ElectionTimer::After { millis } && (
            self@.election_timeout_min <= millis < self@.election_timeout_max)),
    {
        match self.state {
            ServerState::Leader => ElectionTimer::Off,
            ServerState::Candidate { election_ends_at } => ElectionTimer::At {
                deadline: election_ends_at,
            },
            ServerState::Follower => ElectionTimer::After { millis: self.get_term_timeout() },
        }
    }

    /// The election timer ran out at `now`: a candidate or a follower stands
    /// for election, for a random election timeout; a leader does nothing.
    pub fn on_election_timeout(&mut self, now: u64)
        requires
            now + old(self)@.election_timeout_max <= u64::MAX,
        ensures
            old(self)@.state == ServerState::Leader ==> final(self)@ == old(self)@,
            old(self)@.state != ServerState::Leader ==> {
                &&& final(self)@.state is Candidate
                &&& old(self)@.election_timeout_min <= final(self)@.state->election_ends_at - now
                    < old(self)@.election_timeout_max
                &&& final(self)@ == old(self)@.after_election_timeout(
                    now,
                    (final(self)@.state->election_ends_at - now) as u64,
                )
            },
    {
        if self.state != ServerState::Leader {
            self.start_election(now);
        }
    }

    /// Answers a heartbeat.
    pub fn handle_append(&mut self, packet: &Message) -> (reply: Message)
        ensures
            (final(self)@, reply) == old(self)@.after_append(*packet),
    {
        let mut current_term = self.term;
        let ack = packet.term >= current_term;
        if ack {
            if packet.term > current_term {
                self.state = ServerState::Follower;
                current_term = self.set_term(packet.term);
            }
        }
        Message {
            message_type: PacketType::AppendEntriesAck { did_append: ack },
            term: current_term,
            peer: packet.peer,
        }
    }

    /// Answers a vote request.
    pub fn handle_voterequest(&mut self, packet: &Message) -> (reply: Message)
        ensures
            (final(self)@, reply) == old(self)@.after_vote_request(*packet),
    {
        let mut current_term = self.term;
        let vote_granted = if packet.term >= current_term {
            if packet.term > current_term {
                current_term = self.set_term(packet.term);
            }
            match self.last_vote {
                None => {
                    self.last_vote = Some(packet.peer);
                    true
                },
                Some(p) => p == packet.peer,
            }
        } else {
            false
        };
        Message {
            message_type: PacketType::VoteResponse { is_granted: vote_granted },
            term: current_term,
            peer: packet.peer,
        }
    }

    /// Records the vote of `peer` and becomes leader on a majority.
    pub fn handle_voteresponse(&mut self, peer: ServerAddress, is_granted: bool)
        ensures
            final(self)@ == old(self)@.after_vote_response(peer, is_granted),
    {
        self.election_results.insert(peer, is_granted);
        let vote_cnt = self.election_results.granted_count();
        if wins(vote_cnt, self.peers.len()) {
            self.state = ServerState::Leader;
        }
    }

    /// Handles an incoming message as the current role asks, and returns the
    /// answer to send, if any.
    pub fn handle_message(&mut self, packet: Message) -> (reply: Option<Message>)
        ensures
            (final(self)@, reply) == old(self)@.after_message(packet),
    {
        match self.state {
            ServerState::Leader => match packet.message_type {
                PacketType::AppendEntries => Some(self.handle_append(&packet)),
                PacketType::VoteRequest { .. } => Some(self.handle_voterequest(&packet)),
                _ => None,
            },
            ServerState::Candidate { .. } => match packet.message_type {
                PacketType::AppendEntries => Some(self.handle_append(&packet)),
                PacketType::VoteResponse { is_granted } => {
                    self.handle_voteresponse(packet.peer, is_granted);
                    None
                },
                _ => None,
            },
            ServerState::Follower => match packet.message_type {
                PacketType::AppendEntries => Some(self.handle_append(&packet)),
                PacketType::VoteRequest { .. } => Some(self.handle_voterequest(&packet)),
                _ => None,
            },
        }
    }

    /// A heartbeat tick: the messages to send, and the point in time until
    /// which the heartbeat task then pauses, if any.
    pub fn heartbeat_tick(&self) -> (r: (Vec<Message>, Option<u64>))
        requires
            self@.state is Candidate ==> self@.term > 0,
        ensures
            r.0@ == self@.heartbeat_messages(),
            r.1 == self@.heartbeat_pause(),
    {
        let messages = self.heartbeat_messages();
        let pause = match self.state {
            ServerState::Candidate { election_ends_at } => Some(election_ends_at),
            _ => None,
        };
        (messages, pause)
    }

    /// How the message task ends when no more messages can arrive.
    pub fn incoming_closed(&self) -> (r: Result<(), ConnectionError>)
        ensures
            r == self@.incoming_closed_result(),
    {
        match self.state {
            ServerState::Leader => Err(ConnectionError),
            _ => Ok(()),
        }
    }

    /// The messages of a heartbeat tick.
    pub fn heartbeat_messages(&self) -> (r: Vec<Message>)
        requires
            self@.state is Candidate ==> self@.term > 0,
        ensures
            r@ == self@.heartbeat_messages(),
    {
        let mut out: Vec<Message> = Vec::new();
        match self.state {
            ServerState::Follower => {},
            ServerState::Leader => {
                for i in 0..self.peers.len()
                    invariant
                        self@.state == ServerState::Leader,
                        out@.len() == i,
                        forall|j: int|
                            0 <= j < i ==> #[trigger] out@[j] == append_entries_to(
                                self@.term,
                                self@.peers[j],
                            ),
                {
                    out.push(
                        Message {
                            message_type: PacketType::AppendEntries,
                            term: self.term,
                            peer: self.peers[i],
                        },
                    );
                }
            },
            ServerState::Candidate { .. } => {
                let current_term = self.term;
                for i in 0..self.peers.len()
                    invariant
                        self@.state is Candidate,
                        current_term == self@.term,
                        current_term > 0,
                        out@.len() == i,
                        forall|j: int|
                            0 <= j < i ==> #[trigger] out@[j] == vote_request_to(
                                self@.term,
                                self@.peers[j],
                            ),
                {
                    out.push(
                        Message {
                            message_type: PacketType::VoteRequest {
                                last_log_index: 0,
                                last_log_term: current_term - 1,
                            },
                            term: current_term,
                            peer: self.peers[i],
                        },
                    );
                }
            },
        }
        assert(out@ =~= self@.heartbeat_messages());
        out
    }
}

} // verus!
