//! A verified client core for TypeSafe's System One API.

mod answer;
mod client;
mod error;
mod json;
mod ordered;
mod question;
mod retry;
mod text;
mod time;

pub use ordered::OrderedMap;
pub use time::Duration;
pub use error::TypeSafeError;
pub use retry::RetryPolicy;
pub use question::{ChoiceQuestion, Entry, NoulCriteria, NoulQuestion, Question, ScoreQuestion};
pub use json::Json;
pub use client::{Attempt, Call, Client, ClientConfig, ModelCard, ModelList, Outcome, Request, Step, API_KEY_ENV, BASE_URL_ENV, DEFAULT_BASE_URL, DEFAULT_MODEL, DEFAULT_TIMEOUT_SECS};
pub use answer::{Answer, ChoiceAnswer, Evaluation, NoulAnswer, ScoreAnswer, ScoreLevel, Usage};
pub use client::decode_failure;
pub use json::{detail_from, extract_detail};
pub use retry::parse_retry_after;
pub use text::truncate;
