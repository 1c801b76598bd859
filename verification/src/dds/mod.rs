//! The DDS side of the bridge: topics, readers and writers, and what the
//! opaque type support decides.
pub mod error;
pub mod hash;
pub mod hash_laws;
pub mod key_laws;
pub mod laws;
pub mod md5;
pub mod participant;
pub mod qos_handle;
pub mod reader;
pub mod registry_laws;
pub mod sertype;
pub mod setting_laws;
pub mod writer;

pub use error::DdsError;
pub use participant::{DdsParticipant, Topic};
pub use qos_handle::{make_qos, QosHandle};
pub use writer::{DdsWriter, WriteOp, WriterRegistry};
pub use reader::{DdsReader, InstanceState, ReaderRegistry, ReceivedSample};
pub use sertype::{SampleWrapper, DDS_DOMAIN_DEFAULT};
