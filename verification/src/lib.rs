//! Core of a chain head catalog: an append-only log of the source-chain
//! records of one agent under one application, kept per chain key.
//!
//! The catalog accepts a batch of records only if it continues the chain it
//! is pushed to, reports the link it expected where the batch does not, and
//! serves the records behind an anchor. Everything here works on plain
//! values; sockets, locks and the wire codec stay with the caller.
pub mod bytes;
pub mod chain;
pub mod cli;
pub mod error;
pub mod key;
pub mod msgpack_utils;
pub mod record;
pub mod response;
pub mod routes;
pub mod state;

pub use chain::CellState;
pub use cli::{BindTarget, LocalChcServerCli};
pub use error::ChcServiceError;
pub use key::{ChainKey, ChcPathParams, HashKind};
pub use msgpack_utils::MsgPack;
pub use record::{ActionDecoding, AddRecordPayload, RecordItem, SignedAction};
pub use response::{BodyKind, Header, Response};
pub use routes::{
    add_records, append_answer, get_record_data, not_found, read_answer, GetRecordDataResult,
    GetRecordsPayload, GetRecordsRequest,
};
pub use state::AppState;
