//! Request validation, identifier extraction and output formatting for a
//! caption service, with the request flow around an outside caption provider.
//!
//! A request names a video by its identifier or by its URL. [`handle`] finds
//! the identifier; the steps of [`orchestrator`] then take what the provider
//! answers and end in a [`VideoSummary`] or a [`RequestError`]. The provider
//! itself, the HTTP layer and the process are not part of this library: it
//! takes and gives plain values.
//!
//! Numbers with a point come and go as bit patterns ([`Seconds`]); the
//! library holds and computes whole numbers only.

pub mod binary64;
pub mod decimal;
pub mod error;
pub mod format;
pub mod identifier;
pub mod model;
pub mod orchestrator;
pub mod text;
pub mod url;

pub use binary64::Seconds;
pub use error::{RequestError, ValidationError};
pub use format::{clean_caption_text, format_views, seconds_to_timestamp};
pub use identifier::{validate_video_id, VideoIdentifier};
pub use model::{Caption, TranscriptSnippet, VideoDetails, VideoSummary};
pub use orchestrator::{handle, TranscriptRequest};
pub use url::extract_id_from_url;
