//! A publish-side MQTT client core: packet identifiers, the queue of publishes
//! waiting for their acknowledgement, the connection state machine and the
//! keep-alive rules, with the network left to the caller.

use vstd::prelude::*;

pub mod backup;
pub mod callback;
pub mod client;
pub mod clientoptions;
pub mod error;
pub mod laws;
pub mod mqtt3_types;
pub mod publisher;
pub mod step_laws;
pub mod topic;

pub use callback::Message;
pub use clientoptions::MqttOptions;
pub use error::{ClientError, Result};
pub use publisher::{PublishRequest, Publisher};

verus! {

/// The state of the MQTT connection as the client sees it.
#[derive(Debug, Clone, Copy, PartialEq, Eq, Structural)]
pub enum MqttState {
    Handshake,
    Connected,
    Disconnected,
}

} // verus!

