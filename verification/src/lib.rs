//! Servers that own their state and serve clients over channels.
//!
//! - `channel`: two-way connections over crossbeam channels.
//! - `id_map`: a map that chooses the keys of what it stores.
//! - `example`: a counter server whose clients each have a connection.
//! - `ordered`: the same server with one shared request queue.
//! - `codegen`: the naming and checking rules of generated servers.
pub mod channel;
pub mod codegen;
pub mod example;
pub mod id_map;
pub mod ordered;

pub use channel::{duplex, paired, try_recv_outcome, DuplexEnd, RecvEnd, SendEnd, SendError, TryRecvError};
pub use example::{CallError, ExampleClient, ExampleServer, Reply, Request, ServeError};
pub use id_map::IdMap;
pub use ordered::{OrderedExampleClient, OrderedExampleServer};
