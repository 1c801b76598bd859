//! QoS policies: their values, their normal form and their encoding.
pub mod codec;
pub mod default_laws;
pub mod laws;
pub mod policy;

pub use codec::{parse_qos, serialize_qos};
pub use policy::{QosPolicy, QosPolicyView, QosSet};
