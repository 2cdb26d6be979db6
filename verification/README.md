# raft

The decision logic of a small Raft node, verified with Verus, and the
program that runs it.

- `src/` is the library. `server` holds the state machine: a server's role,
  term and vote, how it answers heartbeats and vote requests, how it counts
  votes and when it stands for election, all stated over `ServerView`.
  `election` holds the votes heard in an election, `config` the timing,
  `connection` the messages and datagrams, `address` server addresses, and
  `laws` the properties proved of runs of the state machine.
- `app/` is the program: command-line options, the UDP transport, the wire
  encoding, and the tasks that feed the state machine with messages and
  timer events and send what it answers.
- `tests/` runs the library on concrete values.
