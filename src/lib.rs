//! Process supervisor core: a registry of spawned stdio servers, the
//! decisions taken when they are started, fed, killed and reaped, and the
//! ordering of the events each of them produces.

mod error;
mod events;
mod kill;
mod launch;
mod models;
mod registry;
mod send;

pub use error::{Error, Result};
pub use events::{
    channel_of, ends_with_exit, event_channel, exit_only_last, lemma_exactly_one_exit,
    output_event, reader_step, EventGate, ReadOutcome, ReaderStep,
};
pub use kill::kill_outcome;
pub use launch::{
    abandon_start, begin_start, finish_start, is_lower_hex_digit, is_v4_uuid_text, PendingStart,
};
pub use models::{
    KillRequest, SendRequest, ServerEvent, ServerIdPayload, StartRequest, StartResponse,
    StdioServerParams, StreamKind,
};
pub use registry::{
    carries_name, lemma_distinct_names_all_reserve, lemma_live_name_is_taken,
    lemma_registered_ids_distinct, lemma_removed_id_not_found, name_held, name_view,
    ManagedProcess, Registry, ServerRecord,
};
pub use send::{
    lemma_framing_keeps_payload, newline_terminated, send_outcome, with_newline, WriteOutcome,
};
