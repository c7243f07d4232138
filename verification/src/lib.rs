pub mod broadcast;
pub mod counter;
pub mod echo;
pub mod init;
pub mod laws;
pub mod message;
pub mod node_map;
pub mod node_set;
pub mod sets;
pub mod state;
pub mod unique_id;

pub use broadcast::{BroadcastPayload, GeneratedPayload};
pub use counter::{CounterPayload, CounterState};
pub use echo::EchoPayload;
pub use init::InitPayload;
pub use message::{Body, Event, Message, NodeError};
pub use node_map::NodeMap;
pub use node_set::NodeSet;
pub use state::State;
pub use unique_id::UniqueIdPayload;
