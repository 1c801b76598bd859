//! The wire protocol: message headers, payloads and the errors that a message
//! can hold.
pub mod codec;
pub mod error;
pub mod fault_laws;
pub mod header;
pub mod laws;
pub mod layout;
pub mod payload;

pub use codec::{
    check_no_trailing, parse_key_descriptors, read_bool, read_string, serialize_key_descriptors,
    write_string, KeyDescriptors, KeyField, KeyTypeHint, MAX_STRING_LENGTH,
};
pub use error::{result_view, ProtocolError, ProtocolErrorView};
pub use header::{
    build_message, parse_header, serialize_header, validate_client_header, Header, MsgType,
    DEFAULT_MAX_PAYLOAD_SIZE, HEADER_SIZE, MAGIC, VERSION,
};
pub use payload::{
    parse_create_writer, parse_data, parse_data_disposed, parse_data_no_writers,
    parse_delete_writer, parse_dispose, parse_error, parse_subscribe, parse_unsubscribe,
    parse_write, parse_write_dispose, parse_write_mode, serialize_create_writer, serialize_data,
    serialize_data_disposed, serialize_data_no_writers, serialize_delete_writer,
    serialize_dispose, serialize_error, serialize_subscribe, serialize_unsubscribe,
    serialize_write, serialize_write_dispose, serialize_write_mode, CreateWriterPayload,
    DataDisposedPayload, DataNoWritersPayload, DataPayload, DeleteWriterPayload, DisposePayload,
    ErrorCode, ErrorPayload, SubscribePayload, UnsubscribePayload, WriteDisposePayload, WriteMode,
    WritePayload,
};
