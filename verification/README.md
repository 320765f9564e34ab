# cloudpubsub

The publishing core of an MQTT client built for reliable delivery over
unreliable networks. Every publish is sent at QoS 1 and stays queued until
the broker acknowledges it. The in-memory queue is bounded (`queue_limit`);
once it is full, new publishes go to a backlog, which can be kept on disk
(`backup_path`) and survives restarts, and which drops new publishes once it
holds `backlog_limit` of them. The backlog is sent oldest first. With a
persistent session, the unacknowledged publishes are kept across
disconnections and are sent again first after reconnecting; a connection
that breaks again part-way through loses none of them.

- `src/` is the library, verified with Verus: packet identifiers, the
  bounded queue and the backlog, the connection state machine, the
  keep-alive rules, the network loop's decisions and topic validation
  (through the `mqtt3` crate), and the backlog file format with its
  encoder and decoder (`src/backup.rs`). `src/laws.rs` states and proves the
  properties that span several operations.
- `app/` drives the library over TCP or TLS (`openssl`), converts to and
  from `mqtt3` packets, reads and writes the backlog file's bytes, runs the network
  thread and the publish callbacks (`threadpool`).
- `tests/` runs the library on concrete scenarios.
