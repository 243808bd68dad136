# RustQueue: discovery, proxy and operator

RustQueue is a share-nothing message queue for Kubernetes that speaks the protocol of NSQ. This
crate holds the parts around its brokers, written in Verus: what they decide is stated in
contracts and proved.

- `src/protocol`: commands, frames, batches and identities on the wire.
- `src/discovery`: which brokers there are and what they hold, from their registries, and what
  clients are answered.
- `src/proxy`: connections and requests of producers, spread over brokers, and the gateways for
  Kodo.
- `src/operator`: the resources of a queue, and how it is validated, rolled out, scaled, drained
  and reported on; also the layout, placement, certificates and rollouts of a cluster of cells.
- `src/text.rs`, `src/text_list.rs`, `src/string_map.rs`, `src/ordered.rs`, `src/wire.rs`,
  `src/digest.rs`, `src/json.rs`: texts, sorted collections, numbers on the wire, digests and JSON.

Each function states what it returns or changes over mathematical models. The `law_` proof
functions state what holds across functions: that a message is not sent to two brokers, that one
broker at a time is replaced, that the storage level of a queue never falls.

What other crates compute is reached through small trusted functions, each with a comment that
says which function it calls and what is taken for granted of it. Times come in as arguments, in
nanoseconds or as texts; the few functions that read a clock or draw random numbers state what
holds whatever comes back.

`app` is the programs around the library: `rustqueue discovery`, `rustqueue proxy` and
`rustqueue operator`. They read and write sockets, files and Kubernetes, and carry out what the
library decides. `tests` runs the library.
