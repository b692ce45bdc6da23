# omnipaxos

The bookkeeping that a Sequence Paxos node does, verified with Verus: which followers have promised
to a leader, how far each has accepted, which indexes are chosen, how messages are numbered, and when
a timeout has run off.

- `src/leader.rs`: the state of a leader; its view, `LeaderStateView`, says what each operation does.
- `src/laws.rs`: what holds of a leader's state across operations.
- `src/promise.rs`, `src/quorum.rs`, `src/sequence.rs`, `src/clock.rs`, `src/ballot.rs`: the parts a
  leader's state is made of, each with its own laws.
- `src/log.rs`, `src/storage.rs`, `src/messages.rs`, `src/ids.rs`, `src/defaults.rs`: the data that is
  handed around.
- `src/node_map.rs`: maps keyed by node, the integer maps of `nohash_hasher`. What this file claims of
  them is believed without proof; everything else is proved from it.
- `app/lib.rs`: serializable forms of the data types.
