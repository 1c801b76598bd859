//! The bridge: how requests from clients are answered, and how samples reach
//! the sessions that are subscribed.
pub mod buffer;
pub mod delivery_laws;
pub mod laws;
pub mod reply;
pub mod request;
pub mod request_laws;
pub mod state;
pub mod texts;

pub use buffer::{OutboundMessage, SessionBuffer};
pub use reply::{make_error_response, sample_to_message};
pub use request::{EntityRequest, Job, OpRequest, Outcome, Pending, TopicRequest};
pub use state::{
    create_bridge, domain_of, execute_write_op, next_session_id, sample_fits, BridgeInner,
    FIRST_SESSION_ID,
};
