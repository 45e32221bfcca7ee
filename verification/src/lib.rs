//! Screening of user prompts for injection attempts before they reach a
//! model: an English-only filter, the collection of prompts from command-line
//! arguments, the decisions of a batch check and of the HTTP interface, the
//! life cycle of the shared classifier, and the unpacking of its assets.
//!
//! Running the classifier itself (a tokenizer and an ONNX session working in
//! floating point), the file system, threads and the HTTP server are the
//! caller's part; this library decides what to do with what they give.

pub mod assets;
pub mod cli;
pub mod detector;
pub mod http;
pub mod inputs;
pub mod language;
pub mod model_slot;
pub mod paths;
pub mod text;
pub mod types;

pub use cli::{check_one_prompt, run_check_batch, CheckBatchOutcome};
pub use inputs::{collect_check_items, CheckItem};
pub use language::is_english;
pub use model_slot::SlotState;
pub use types::{version_info, CheckRequest, CheckResult, ErrorResponse, VersionInfo, MODEL_ID};
