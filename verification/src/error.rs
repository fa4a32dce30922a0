//! What can go wrong with a request, and the message each failure carries.

use vstd::prelude::*;

verus! {

/// Why an identifier or a URL was refused.
#[derive(Debug, Clone, PartialEq, Eq)]
pub enum ValidationError {
    /// The identifier does not have eleven characters.
    Length,
    /// The identifier holds these characters, which no identifier may hold:
    /// every offending character, in the order met, repeats included.
    Charset(Vec<char>),
    /// The URL is of a known form, but no valid identifier stands in it.
    UrlParse,
    /// The URL is neither a watch-page URL nor a short link.
    UnsupportedUrl,
}

/// `ValidationError` as a mathematical value.
pub enum Fault {
    Length,
    Charset(Seq<char>),
    UrlParse,
    UnsupportedUrl,
}

impl View for ValidationError {
    type V = Fault;

    open spec fn view(&self) -> Fault {
        match self {
            ValidationError::Length => Fault::Length,
            ValidationError::Charset(bad) => Fault::Charset(bad@),
            ValidationError::UrlParse => Fault::UrlParse,
            ValidationError::UnsupportedUrl => Fault::UnsupportedUrl,
        }
    }
}

/// The text that `{:?}` gives for a list of characters.
pub uninterp spec fn debug_listing(chars: Seq<char>) -> Seq<char>;

/// The message of a fault.
pub open spec fn fault_message(fault: Fault) -> Seq<char> {
    match fault {
        Fault::Length => "video_id must be exactly 11 characters"@,
        Fault::Charset(bad) => charset_text(debug_listing(bad)),
        Fault::UrlParse => "invalid YouTube URL: could not extract valid video ID"@,
        Fault::UnsupportedUrl => "invalid YouTube URL: must be youtube.com/watch or youtu.be URL"@,
    }
}

/// The message for offending characters whose listing is `listing`.
pub open spec fn charset_text(listing: Seq<char>) -> Seq<char> {
    "video_id contains invalid characters: "@ + listing
}

/// Formats the list with std's `{:?}`: the `Debug` rendering of a `Vec<char>`.
/// The contract only names that text; nothing is claimed of its shape.
#[verifier::external_body]
fn debug_list(chars: &Vec<char>) -> (out: String)
    ensures
        out@ == debug_listing(chars@),
{
    format!("{:?}", chars)
}

/// The message that reports offending characters, given their listing.
pub fn charset_message(listing: &str) -> (out: String)
    ensures
        out@ == charset_text(listing@),
{
    String::from_str("video_id contains invalid characters: ").concat(listing)
}

impl ValidationError {
    /// The message that goes out to the caller.
    pub fn message(&self) -> (out: String)
        ensures
            out@ == fault_message(self@),
    {
        match self {
            ValidationError::Length => String::from_str("video_id must be exactly 11 characters"),
            ValidationError::Charset(bad) => {
                let listing = debug_list(bad);
                charset_message(listing.as_str())
            },
            ValidationError::UrlParse => String::from_str(
                "invalid YouTube URL: could not extract valid video ID",
            ),
            ValidationError::UnsupportedUrl => String::from_str(
                "invalid YouTube URL: must be youtube.com/watch or youtu.be URL",
            ),
        }
    }
}

/// Why a request failed. The first three are the caller's fault, the others
/// the provider's.
#[derive(Debug, Clone, PartialEq, Eq)]
pub enum RequestError {
    /// The request names both an identifier and a URL.
    ConflictingInput,
    /// The request names neither an identifier nor a URL.
    MissingInput,
    /// The identifier or the URL of the request was refused.
    Invalid(ValidationError),
    /// No client for the provider could be made; the provider's words.
    ProviderInit(String),
    /// The provider gave no transcript; whether a proxy was configured, and
    /// the provider's words.
    TranscriptFetch { proxied: bool, cause: String },
    /// The provider gave no metadata; the provider's words.
    MetadataFetch(String),
}

/// `RequestError` as a mathematical value.
pub enum RequestFault {
    ConflictingInput,
    MissingInput,
    Invalid(Fault),
    ProviderInit(Seq<char>),
    TranscriptFetch { proxied: bool, cause: Seq<char> },
    MetadataFetch(Seq<char>),
}

impl View for RequestError {
    type V = RequestFault;

    open spec fn view(&self) -> RequestFault {
        match self {
            RequestError::ConflictingInput => RequestFault::ConflictingInput,
            RequestError::MissingInput => RequestFault::MissingInput,
            RequestError::Invalid(e) => RequestFault::Invalid(e@),
            RequestError::ProviderInit(cause) => RequestFault::ProviderInit(cause@),
            RequestError::TranscriptFetch { proxied, cause } => RequestFault::TranscriptFetch {
                proxied: *proxied,
                cause: cause@,
            },
            RequestError::MetadataFetch(cause) => RequestFault::MetadataFetch(cause@),
        }
    }
}

/// The status of a response to a request that the caller got wrong.
pub const STATUS_BAD_REQUEST: u16 = 400;

/// The status of a response to a request that failed at the provider.
pub const STATUS_SERVER_ERROR: u16 = 500;

/// Whether the fault lies with the caller.
pub open spec fn is_input_fault(fault: RequestFault) -> bool {
    fault is ConflictingInput || fault is MissingInput || fault is Invalid
}

/// The status that answers a fault.
pub open spec fn fault_status(fault: RequestFault) -> u16 {
    if is_input_fault(fault) {
        STATUS_BAD_REQUEST
    } else {
        STATUS_SERVER_ERROR
    }
}

/// How a message says whether a proxy was configured.
pub open spec fn flag_text(flag: bool) -> Seq<char> {
    if flag {
        "true"@
    } else {
        "false"@
    }
}

/// The message of a failed request.
pub open spec fn request_fault_message(fault: RequestFault) -> Seq<char> {
    match fault {
        RequestFault::ConflictingInput => "Cannot provide both video_id and video_url. Use one or the other."@,
        RequestFault::MissingInput => "Must provide either video_id or video_url."@,
        RequestFault::Invalid(inner) => fault_message(inner),
        RequestFault::ProviderInit(cause) => "API init error: "@ + cause,
        RequestFault::TranscriptFetch { proxied, cause } => "Transcript error (proxy="@ + flag_text(
            proxied,
        ) + "): "@ + cause,
        RequestFault::MetadataFetch(cause) => cause,
    }
}

impl RequestError {
    /// Whether the fault lies with the caller.
    pub fn is_input_error(&self) -> (b: bool)
        ensures
            b == is_input_fault(self@),
    {
        match self {
            RequestError::ConflictingInput => true,
            RequestError::MissingInput => true,
            RequestError::Invalid(_) => true,
            _ => false,
        }
    }

    /// The status of the response: a client error for the caller's faults,
    /// a server error for the provider's.
    pub fn status(&self) -> (code: u16)
        ensures
            code == fault_status(self@),
            code == STATUS_BAD_REQUEST || code == STATUS_SERVER_ERROR,
    {
        if self.is_input_error() {
            STATUS_BAD_REQUEST
        } else {
            STATUS_SERVER_ERROR
        }
    }

    /// The message that goes out to the caller.
    pub fn message(&self) -> (out: String)
        ensures
            out@ == request_fault_message(self@),
    {
        match self {
            RequestError::ConflictingInput => String::from_str(
                "Cannot provide both video_id and video_url. Use one or the other.",
            ),
            RequestError::MissingInput => String::from_str(
                "Must provide either video_id or video_url.",
            ),
            RequestError::Invalid(inner) => inner.message(),
            RequestError::ProviderInit(cause) => String::from_str("API init error: ").concat(
                cause.as_str(),
            ),
            RequestError::TranscriptFetch { proxied, cause } => {
                let flag: &str = if *proxied {
                    "true"
                } else {
                    "false"
                };
                String::from_str("Transcript error (proxy=").concat(flag).concat("): ").concat(
                    cause.as_str(),
                )
            },
            RequestError::MetadataFetch(cause) => cause.clone(),
        }
    }
}

} // verus!
