use vstd::prelude::*;

use crate::address::ServerAddress;
use crate::connection::{Message, PacketType};
use crate::election::granted_voters;
use crate::server::{may_vote_for, next_term, wins_election, ServerState, ServerView};

verus! {

/// Something that happens to a server: a message handled as its role asks
/// (`handle_message`), a heartbeat, vote request or vote answer handed
/// straight to its handler (`handle_append`, `handle_voterequest`,
/// `handle_voteresponse`), or its election timer running out at a time, with
/// the election timeout drawn then (`on_election_timeout`).
pub enum Event {
    Message(Message),
    Append(Message),
    VoteRequest(Message),
    VoteResponse(ServerAddress, bool),
    ElectionTimeout(u64, u64),
}

/// The server and its answer after an event.
pub open spec fn after_event(s: ServerView, e: Event) -> (ServerView, Option<Message>) {
    match e {
        Event::Message(m) => s.after_message(m),
        Event::Append(m) => {
            let (next, reply) = s.after_append(m);
            (next, Some(reply))
        },
        Event::VoteRequest(m) => {
            let (next, reply) = s.after_vote_request(m);
            (next, Some(reply))
        },
        Event::VoteResponse(peer, is_granted) => (s.after_vote_response(peer, is_granted), None),
        Event::ElectionTimeout(now, timeout) => (s.after_election_timeout(now, timeout), None),
    }
}

/// The server an event comes from: the sender of a message or of a vote
/// answer; `0.0.0.0:0` for a timer.
pub open spec fn event_sender(e: Event) -> ServerAddress {
    match e {
        Event::Message(m) => m.peer,
        Event::Append(m) => m.peer,
        Event::VoteRequest(m) => m.peer,
        Event::VoteResponse(peer, _) => peer,
        Event::ElectionTimeout(..) => ServerAddress::spec_unspecified(),
    }
}

/// The server after the events of `events`, in order.
pub open spec fn replay(s: ServerView, events: Seq<Event>) -> ServerView
    decreases events.len(),
{
    if events.len() == 0 {
        s
    } else {
        after_event(replay(s, events.drop_last()), events.last()).0
    }
}

/// The answer to `events[i]` when `events` happen in order.
pub open spec fn reply_at(s: ServerView, events: Seq<Event>, i: int) -> Option<Message> {
    after_event(replay(s, events.take(i)), events[i]).1
}

/// Every election timer of the run runs out in a term below the largest one,
/// so that no election wraps the term around to 0.
pub open spec fn terms_stay_below_max(s: ServerView, events: Seq<Event>) -> bool {
    forall|k: int|
        0 <= k < events.len() && events[k] is ElectionTimeout ==> #[trigger] replay(
            s,
            events.take(k),
        ).term < u64::MAX
}

/// An answer that grants a vote.
pub open spec fn grants_vote(reply: Option<Message>) -> bool {
    reply matches Some(r) && r.message_type == (PacketType::VoteResponse { is_granted: true })
}

/// Handling a message never lowers the server's term.
pub proof fn lemma_message_never_lowers_term(s: ServerView, m: Message)
    ensures
        s.after_message(m).0.term >= s.term,
{
}

/// Handling a message never changes the server's peers or timing.
pub proof fn lemma_message_keeps_configuration(s: ServerView, m: Message)
    ensures
        s.after_message(m).0.peers == s.peers,
        s.after_message(m).0.heartbeat_millis == s.heartbeat_millis,
        s.after_message(m).0.election_timeout_min == s.election_timeout_min,
        s.after_message(m).0.election_timeout_max == s.election_timeout_max,
{
}

/// Every answer goes back to the sender, and carries the server's term after
/// the message, which is the larger of the server's and the message's terms.
pub proof fn lemma_reply_carries_term(s: ServerView, m: Message)
    ensures
        s.after_message(m).1 matches Some(reply) ==> {
            &&& reply.peer == m.peer
            &&& reply.term == s.after_message(m).0.term
            &&& reply.term == (if m.term > s.term {
                m.term
            } else {
                s.term
            })
        },
{
}

/// A heartbeat from a newer term makes the server, whatever its role, a
/// follower in that term with no vote, and is accepted.
pub proof fn lemma_newer_heartbeat_makes_follower(s: ServerView, m: Message)
    requires
        m.message_type == PacketType::AppendEntries,
        m.term > s.term,
    ensures
        s.after_message(m).0.state == ServerState::Follower,
        s.after_message(m).0.term == m.term,
        s.after_message(m).0.last_vote is None,
        s.after_message(m).1 == Some(
            Message {
                message_type: PacketType::AppendEntriesAck { did_append: true },
                term: m.term,
                peer: m.peer,
            },
        ),
{
}

/// A heartbeat or a vote request from an older term changes nothing, and is
/// refused if it is answered.
pub proof fn lemma_stale_request_refused(s: ServerView, m: Message)
    requires
        m.message_type == PacketType::AppendEntries || m.message_type is VoteRequest,
        m.term < s.term,
    ensures
        s.after_message(m).0 == s,
        s.after_message(m).1 matches Some(reply) ==> {
            ||| reply.message_type == (PacketType::AppendEntriesAck { did_append: false })
            ||| reply.message_type == (PacketType::VoteResponse { is_granted: false })
        },
{
}

/// Within a term, a vote once cast stays cast: a message that leaves the term
/// unchanged leaves the vote unchanged.
pub proof fn lemma_vote_kept_within_term(s: ServerView, m: Message)
    ensures
        s.after_message(m).0.term == s.term && s.last_vote is Some ==> s.after_message(m).0.last_vote
            == s.last_vote,
{
}

/// A granted vote is a vote for the sender in the sender's term, which is the
/// server's term afterwards.
pub proof fn lemma_granted_vote_recorded(s: ServerView, m: Message)
    ensures
        grants_vote(s.after_message(m).1) ==> {
            &&& s.after_message(m).0.last_vote == Some(m.peer)
            &&& s.after_message(m).0.term == m.term
            &&& m.term >= s.term
        },
{
}

/// A server becomes leader only on a vote that gives it more than half of the
/// cluster, counting its own vote.
pub proof fn lemma_leader_needs_majority(s: ServerView, m: Message)
    requires
        s.state != ServerState::Leader,
        s.after_message(m).0.state == ServerState::Leader,
    ensures
        s.state is Candidate,
        m.message_type is VoteResponse,
        wins_election(
            granted_voters(s.after_message(m).0.election_results).len(),
            s.peers.len(),
        ),
{
}

/// Standing for election moves to a term other than the current one, with no
/// vote cast and no vote counted, until `now + timeout`; peers and timing stay.
pub proof fn lemma_election_starts_fresh(s: ServerView, now: u64, timeout: u64)
    requires
        now + timeout <= u64::MAX,
    ensures
        s.after_start_election(now, timeout).term == next_term(s.term),
        s.after_start_election(now, timeout).term != s.term,
        s.after_start_election(now, timeout).last_vote is None,
        granted_voters(s.after_start_election(now, timeout).election_results)
            == Set::<ServerAddress>::empty(),
        s.after_start_election(now, timeout).election_results.dom() == s.peers.to_set(),
        s.after_start_election(now, timeout).state == (ServerState::Candidate {
            election_ends_at: (now + timeout) as u64,
        }),
        s.after_start_election(now, timeout).peers == s.peers,
{
    let results = s.after_start_election(now, timeout).election_results;
    assert(granted_voters(results) =~= Set::<ServerAddress>::empty());
    assert(results.dom() =~= s.peers.to_set());
}

/// A heartbeat is answered in every role: accepted exactly when its term is
/// not older than the server's, with the larger of the two terms, to its
/// sender. A newer term makes the server a follower in that term with no vote;
/// any other heartbeat leaves the server as it was.
pub proof fn lemma_heartbeat_answered(s: ServerView, m: Message)
    requires
        m.message_type == PacketType::AppendEntries,
    ensures
        ({
            let reply = Message {
                message_type: PacketType::AppendEntriesAck { did_append: m.term >= s.term },
                term: if m.term > s.term {
                    m.term
                } else {
                    s.term
                },
                peer: m.peer,
            };
            let next = if m.term > s.term {
                ServerView { state: ServerState::Follower, term: m.term, last_vote: None, ..s }
            } else {
                s
            };
            &&& s.after_append(m) == (next, reply)
            &&& s.after_message(m) == (next, Some(reply))
        }),
{
}

/// A vote request from an older term is refused. One from a newer term is
/// granted. One from the server's own term is granted when the server has not
/// voted in it, or voted for the same candidate. The answer goes to the
/// candidate with the larger of the two terms; the server moves to that term
/// and, if it granted, holds its vote for the candidate. A leader and a follower
/// answer so; a candidate drops the request.
pub proof fn lemma_vote_request_answered(s: ServerView, m: Message)
    requires
        m.message_type is VoteRequest,
    ensures
        ({
            let granted = m.term > s.term || (m.term == s.term && (s.last_vote is None
                || s.last_vote == Some(m.peer)));
            let term = if m.term > s.term {
                m.term
            } else {
                s.term
            };
            let next = ServerView {
                term,
                last_vote: if granted {
                    Some(m.peer)
                } else {
                    s.last_vote
                },
                ..s
            };
            let reply = Message {
                message_type: PacketType::VoteResponse { is_granted: granted },
                term,
                peer: m.peer,
            };
            &&& s.after_vote_request(m) == (next, reply)
            &&& s.state is Candidate ==> s.after_message(m) == (s, None::<Message>)
            &&& !(s.state is Candidate) ==> s.after_message(m) == (next, Some(reply))
        }),
{
}

/// A candidate wins exactly when its votes, its own included, are more than
/// half of the votes of the cluster of itself and its peers.
pub proof fn lemma_wins_election_is_majority(granted: nat, peers: nat)
    ensures
        wins_election(granted, peers) <==> 2 * (granted + 1) > peers + 1,
{
}

/// A vote answer records the sender's vote, replacing an earlier one, and the
/// server leads once the servers that granted, plus itself, are more than half
/// of the cluster; otherwise its role stays. Only a candidate takes vote
/// answers from messages; a leader or follower drops them.
pub proof fn lemma_vote_response_counted(s: ServerView, peer: ServerAddress, is_granted: bool)
    ensures
        ({
            let results = s.election_results.insert(peer, is_granted);
            let voters = results.dom().filter(|q: ServerAddress| results[q]);
            let next = ServerView {
                election_results: results,
                state: if 2 * (voters.len() + 1) > s.peers.len() + 1 {
                    ServerState::Leader
                } else {
                    s.state
                },
                ..s
            };
            let m = Message {
                message_type: PacketType::VoteResponse { is_granted },
                term: s.term,
                peer,
            };
            &&& s.after_vote_response(peer, is_granted) == next
            &&& s.state is Candidate ==> s.after_message(m) == (next, None::<Message>)
            &&& !(s.state is Candidate) ==> s.after_message(m) == (s, None::<Message>)
        }),
{
    let results = s.election_results.insert(peer, is_granted);
    assert(granted_voters(results) == results.dom().filter(|q: ServerAddress| results[q]));
    lemma_wins_election_is_majority(granted_voters(results).len(), s.peers.len());
}

/// Acknowledgements are dropped in every role, and so are vote answers by a
/// leader or a follower and vote requests by a candidate: the server stays as
/// it was and answers nothing.
pub proof fn lemma_unexpected_message_dropped(s: ServerView, m: Message)
    requires
        m.message_type is AppendEntriesAck || (m.message_type is VoteResponse && !(s.state is Candidate))
            || (m.message_type is VoteRequest && s.state is Candidate),
    ensures
        s.after_message(m) == (s, None::<Message>),
{
}

/// On a heartbeat tick a leader sends one heartbeat with its term to each of
/// its peers, in order; a candidate sends each peer, in order, a vote request
/// with its term and the term before it; a follower sends nothing.
pub proof fn lemma_heartbeat_tick(s: ServerView)
    ensures
        s.state == ServerState::Follower ==> s.heartbeat_messages().len() == 0,
        s.state != ServerState::Follower ==> s.heartbeat_messages().len() == s.peers.len(),
        s.state == ServerState::Leader ==> forall|i: int|
            0 <= i < s.peers.len() ==> #[trigger] s.heartbeat_messages()[i] == (Message {
                message_type: PacketType::AppendEntries,
                term: s.term,
                peer: s.peers[i],
            }),
        s.state is Candidate ==> forall|i: int|
            0 <= i < s.peers.len() ==> #[trigger] s.heartbeat_messages()[i] == (Message {
                message_type: PacketType::VoteRequest {
                    last_log_index: 0,
                    last_log_term: (s.term - 1) as u64,
                },
                term: s.term,
                peer: s.peers[i],
            }),
{
}

/// When its election timer runs out, a leader stays as it is; any other server
/// stands for a fresh election: the next term (0 after the largest), no vote,
/// every peer's vote not granted and no other server's recorded, and a
/// deadline `timeout` after `now`. Standing for election directly does the
/// same in every role.
pub proof fn lemma_election_timeout_starts_fresh(s: ServerView, now: u64, timeout: u64)
    requires
        now + timeout <= u64::MAX,
    ensures
        ({
            let fresh = ServerView {
                state: ServerState::Candidate { election_ends_at: (now + timeout) as u64 },
                election_results: Map::new(
                    |p: ServerAddress| s.peers.contains(p),
                    |p: ServerAddress| false,
                ),
                term: if s.term == u64::MAX {
                    0
                } else {
                    (s.term + 1) as u64
                },
                last_vote: None,
                ..s
            };
            &&& s.after_start_election(now, timeout) == fresh
            &&& s.state == ServerState::Leader ==> s.after_election_timeout(now, timeout) == s
            &&& s.state != ServerState::Leader ==> s.after_election_timeout(now, timeout) == fresh
        }),
{
}

proof fn lemma_replay_step(s: ServerView, events: Seq<Event>, k: int)
    requires
        0 <= k < events.len(),
    ensures
        replay(s, events.take(k + 1)) == after_event(replay(s, events.take(k)), events[k]).0,
{
    assert(events.take(k + 1).drop_last() =~= events.take(k));
}

/// One event never lowers the term, if an election timer runs out below the
/// largest term; and within a term, a vote once cast stays cast.
proof fn lemma_event_step(s: ServerView, e: Event)
    requires
        e is ElectionTimeout ==> s.term < u64::MAX,
    ensures
        after_event(s, e).0.term >= s.term,
        after_event(s, e).0.term == s.term && s.last_vote is Some ==> after_event(s, e).0.last_vote
            == s.last_vote,
{
}

/// A granted vote answers a vote request from the event's sender, in that
/// sender's term, which is the server's term afterwards and in which the
/// server then holds its vote for the sender.
proof fn lemma_event_granted_vote(s: ServerView, e: Event)
    requires
        grants_vote(after_event(s, e).1),
    ensures
        after_event(s, e).0.last_vote == Some(event_sender(e)),
        after_event(s, e).1->0.term == after_event(s, e).0.term,
        after_event(s, e).0.term >= s.term,
        e is Message || e is VoteRequest,
{
}

/// In any run whose elections do not wrap the term around, the term never
/// decreases: it is at least as large at every later point.
pub proof fn lemma_term_never_decreases(s: ServerView, events: Seq<Event>, i: int, j: int)
    requires
        0 <= i <= j <= events.len(),
        terms_stay_below_max(s, events),
    ensures
        replay(s, events.take(j)).term >= replay(s, events.take(i)).term,
    decreases j - i,
{
    if i < j {
        lemma_term_never_decreases(s, events, i, j - 1);
        lemma_replay_step(s, events, j - 1);
        assert(events[j - 1] is ElectionTimeout ==> replay(s, events.take(j - 1)).term < u64::MAX);
        lemma_event_step(replay(s, events.take(j - 1)), events[j - 1]);
    }
}

/// Once the server granted its vote at `events[i]`, every later state is in a
/// term not below that vote's, and in that term still holds the vote for the
/// same server.
proof fn lemma_vote_persists(s: ServerView, events: Seq<Event>, i: int, k: int)
    requires
        0 <= i < k <= events.len(),
        terms_stay_below_max(s, events),
        grants_vote(reply_at(s, events, i)),
    ensures
        replay(s, events.take(k)).term >= reply_at(s, events, i)->0.term,
        replay(s, events.take(k)).term == reply_at(s, events, i)->0.term ==> replay(
            s,
            events.take(k),
        ).last_vote == Some(event_sender(events[i])),
    decreases k - i,
{
    if k == i + 1 {
        lemma_replay_step(s, events, i);
        lemma_event_granted_vote(replay(s, events.take(i)), events[i]);
    } else {
        lemma_vote_persists(s, events, i, k - 1);
        lemma_replay_step(s, events, k - 1);
        let before = replay(s, events.take(k - 1));
        assert(events[k - 1] is ElectionTimeout ==> before.term < u64::MAX);
        lemma_event_step(before, events[k - 1]);
    }
}

/// In any run of messages, handler calls and election timers that do not wrap
/// the term around, a server grants its vote in a given term to one candidate
/// only: two granted votes whose answers carry the same term go to the same
/// server.
pub proof fn lemma_one_vote_per_term(s: ServerView, events: Seq<Event>, i: int, j: int)
    requires
        0 <= i < j < events.len(),
        terms_stay_below_max(s, events),
        grants_vote(reply_at(s, events, i)),
        grants_vote(reply_at(s, events, j)),
        reply_at(s, events, i)->0.term == reply_at(s, events, j)->0.term,
    ensures
        event_sender(events[i]) == event_sender(events[j]),
{
    let before_j = replay(s, events.take(j));
    lemma_event_granted_vote(replay(s, events.take(i)), events[i]);
    lemma_event_granted_vote(before_j, events[j]);
    lemma_vote_persists(s, events, i, j);
    assert(before_j.term == reply_at(s, events, i)->0.term);
    assert(before_j.last_vote == Some(event_sender(events[i])));
    match events[j] {
        Event::Message(m) => {
            lemma_reply_carries_term(before_j, m);
            assert(may_vote_for(before_j.last_vote, m.peer));
        },
        Event::VoteRequest(m) => {
            assert(may_vote_for(before_j.last_vote, m.peer));
        },
        _ => {},
    }
}

} // verus!
