//! A directory-watching agent library: snapshots of a directory's entries,
//! a set-semantics diff between successive snapshots, the report state
//! machine that governs first-report and failure-recovery behaviour, and
//! the wire encoding of outgoing reports.

mod diff;
mod encode;
mod http;
mod ident;
mod items;
mod state;
mod uri;

pub use diff::Diff;
pub use diff::diff_added;
pub use diff::diff_removed;
pub use diff::lemma_diff_bounds;
pub use diff::lemma_diff_disjoint;
pub use diff::lemma_diff_empty;
pub use diff::lemma_diff_identical;
pub use diff::lemma_diff_symmetry;
pub use diff::model_set;
pub use diff::models;
pub use diff::owned_diff;
pub use encode::Report;
pub use encode::encode_report;
pub use encode::escape_char;
pub use encode::escape_string;
pub use encode::json_of_item;
pub use encode::json_of_items;
pub use encode::json_of_report;
pub use encode::kind_str;
pub use http::ReportError;
pub use http::build_request_head;
pub use http::classify_response;
pub use http::dec_digits;
pub use http::decimal_string;
pub use http::error_message;
pub use http::is_success_status;
pub use http::outcome_of;
pub use http::parse_status_code;
pub use http::request_head;
pub use http::spec_is_success;
pub use http::status_of;
pub use ident::is_alphanumeric_char;
pub use ident::resolve_agent_id;
pub use items::Item;
pub use items::ItemModel;
pub use items::Kind;
pub use state::State;
pub use state::StateModel;
pub use state::TICK_MILLIS;
pub use state::Event;
pub use state::apply_event;
pub use state::apply_events;
pub use state::initial_state;
pub use state::lemma_failure_resyncs;
pub use state::lemma_first_stays_false;
pub use state::snapshot_or_empty;
pub use state::step_begin_tick;
pub use state::step_failure;
pub use state::step_success;
pub use uri::CollectorUri;
pub use uri::pre_slash_len;
pub use uri::split_uri;
pub use uri::split_uri_spec;
