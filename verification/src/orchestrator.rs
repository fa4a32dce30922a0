//! The course of one request.
//!
//! A request goes through four steps, each once and in this order: the
//! identifier is resolved, a client for the caption provider is made, the
//! transcript is fetched, the metadata is fetched; then the summary is put
//! together. The provider is outside this library. Each step that needs it is
//! a value that says what to ask, and a function that takes the provider's
//! answer and gives the next step or the failure that ends the request. No
//! step is tried again, and no request gives a part of a summary.

use crate::error::{RequestError, RequestFault};
use crate::identifier::{id_fault, is_video_id, VideoIdentifier};
use crate::model::{
    assemble,
    captions_view,
    summary_of,
    Caption,
    CaptionView,
    VideoDetails,
    VideoSummary,
};
use crate::url::{extract_id_from_url, url_identifier};
use vstd::prelude::*;

verus! {

/// What a request asks for: a video named by its identifier or by its URL.
#[derive(Debug, Clone, PartialEq, Eq)]
pub enum TranscriptRequest {
    ByIdentifier(String),
    ByUrl(String),
}

/// `TranscriptRequest` as a mathematical value.
pub enum RequestView {
    ByIdentifier(Seq<char>),
    ByUrl(Seq<char>),
}

impl View for TranscriptRequest {
    type V = RequestView;

    open spec fn view(&self) -> RequestView {
        match self {
            TranscriptRequest::ByIdentifier(id) => RequestView::ByIdentifier(id@),
            TranscriptRequest::ByUrl(url) => RequestView::ByUrl(url@),
        }
    }
}

/// The text of an optional string.
pub open spec fn text_of(field: Option<String>) -> Option<Seq<char>> {
    match field {
        Some(text) => Some(text@),
        None => None,
    }
}

/// The request that the two fields of a payload make: exactly one of them
/// must be there.
pub open spec fn request_of(
    identifier: Option<Seq<char>>,
    url: Option<Seq<char>>,
) -> Result<RequestView, RequestFault> {
    match (identifier, url) {
        (Some(_), Some(_)) => Err(RequestFault::ConflictingInput),
        (None, None) => Err(RequestFault::MissingInput),
        (Some(id), None) => Ok(RequestView::ByIdentifier(id)),
        (None, Some(url)) => Ok(RequestView::ByUrl(url)),
    }
}

/// The identifier that a request names, or the fault of its identifier or
/// URL.
pub open spec fn resolved(request: RequestView) -> Result<Seq<char>, RequestFault> {
    match request {
        RequestView::ByIdentifier(id) => match id_fault(id) {
            None => Ok(id),
            Some(fault) => Err(RequestFault::Invalid(fault)),
        },
        RequestView::ByUrl(url) => match url_identifier(url) {
            Ok(id) => Ok(id),
            Err(fault) => Err(RequestFault::Invalid(fault)),
        },
    }
}

/// The identifier that the two fields of a payload name: the first step of a
/// request.
pub open spec fn resolved_fields(
    identifier: Option<Seq<char>>,
    url: Option<Seq<char>>,
) -> Result<Seq<char>, RequestFault> {
    match request_of(identifier, url) {
        Ok(request) => resolved(request),
        Err(fault) => Err(fault),
    }
}

impl TranscriptRequest {
    /// Makes the request of a payload's two fields.
    ///
    /// Fails with `ConflictingInput` where both are there and with
    /// `MissingInput` where neither is, whatever they hold.
    pub fn from_fields(identifier: Option<String>, url: Option<String>) -> (r: Result<
        TranscriptRequest,
        RequestError,
    >)
        ensures
            identifier is Some && url is Some ==> r is Err && r->Err_0@
                == RequestFault::ConflictingInput,
            identifier is None && url is None ==> r is Err && r->Err_0@
                == RequestFault::MissingInput,
            match r {
                Ok(request) => request_of(text_of(identifier), text_of(url)) == Ok::<
                    RequestView,
                    RequestFault,
                >(request@),
                Err(e) => request_of(text_of(identifier), text_of(url)) == Err::<
                    RequestView,
                    RequestFault,
                >(e@),
            },
    {
        match (identifier, url) {
            (Some(_), Some(_)) => Err(RequestError::ConflictingInput),
            (None, None) => Err(RequestError::MissingInput),
            (Some(id), None) => Ok(TranscriptRequest::ByIdentifier(id)),
            (None, Some(url)) => Ok(TranscriptRequest::ByUrl(url)),
        }
    }

    /// Finds the identifier that the request names: a given identifier is
    /// checked, a URL is searched. What either refuses is handed on.
    pub fn resolve(&self) -> (r: Result<VideoIdentifier, RequestError>)
        ensures
            match r {
                Ok(id) => resolved(self@) == Ok::<Seq<char>, RequestFault>(id@) && is_video_id(
                    id@,
                ),
                Err(e) => resolved(self@) == Err::<Seq<char>, RequestFault>(e@),
            },
    {
        match self {
            TranscriptRequest::ByIdentifier(raw) => match VideoIdentifier::parse(raw.as_str()) {
                Ok(id) => Ok(id),
                Err(e) => Err(RequestError::Invalid(e)),
            },
            TranscriptRequest::ByUrl(url) => match extract_id_from_url(url.as_str()) {
                Ok(id) => {
                    let _ = id.as_str();
                    Ok(id)
                },
                Err(e) => Err(RequestError::Invalid(e)),
            },
        }
    }
}

/// The language in which captions are asked for.
pub open spec fn caption_language() -> Seq<char> {
    "en"@
}

/// A request whose identifier is known and that needs a client for the
/// provider next. The client is to go through `proxy_url()` where that is
/// there, and through no proxy where it is not.
pub struct ClientStep {
    id: VideoIdentifier,
    proxy: Option<String>,
}

/// A request that has its client, a `C`, and needs the transcript next.
pub struct TranscriptStep<C> {
    client: C,
    id: VideoIdentifier,
    proxied: bool,
}

/// A request that has its transcript and needs the metadata next.
pub struct MetadataStep<C> {
    client: C,
    id: VideoIdentifier,
    captions: Vec<Caption>,
}

/// Begins a request: resolves the identifier that the payload's two fields
/// name, and keeps the proxy that the process is configured with, if any.
///
/// Fails where the fields do not make a request, and where the identifier or
/// the URL is refused; no proxy is no failure.
pub fn handle(identifier: Option<String>, url: Option<String>, proxy: Option<String>) -> (r:
    Result<ClientStep, RequestError>)
    ensures
        identifier is Some && url is Some ==> r is Err && r->Err_0@
            == RequestFault::ConflictingInput,
        identifier is None && url is None ==> r is Err && r->Err_0@ == RequestFault::MissingInput,
        match r {
            Ok(step) => resolved_fields(text_of(identifier), text_of(url)) == Ok::<
                Seq<char>,
                RequestFault,
            >(step.id()) && step.proxy() == text_of(proxy) && is_video_id(step.id()),
            Err(e) => resolved_fields(text_of(identifier), text_of(url)) == Err::<
                Seq<char>,
                RequestFault,
            >(e@),
        },
{
    let request = match TranscriptRequest::from_fields(identifier, url) {
        Ok(request) => request,
        Err(e) => { return Err(e); },
    };
    match request.resolve() {
        Ok(id) => Ok(ClientStep { id, proxy }),
        Err(e) => Err(e),
    }
}

impl ClientStep {
    /// The identifier of the video.
    pub closed spec fn id(&self) -> Seq<char> {
        self.id@
    }

    /// The proxy that the client is to go through, if any.
    pub closed spec fn proxy(&self) -> Option<Seq<char>> {
        text_of(self.proxy)
    }

    /// The proxy that the client is to go through, if any.
    pub fn proxy_url(&self) -> (url: Option<String>)
        ensures
            text_of(url) == self.proxy(),
    {
        match &self.proxy {
            Some(url) => Some(url.clone()),
            None => None,
        }
    }

    /// Whether the client is to go through a proxy.
    pub fn has_proxy(&self) -> (b: bool)
        ensures
            b == self.proxy() is Some,
    {
        self.proxy.is_some()
    }

    /// Takes what making the client gave: the client, or the provider's
    /// words where none was made.
    ///
    /// A client leads to the transcript; none ends the request with
    /// `ProviderInit`.
    pub fn client_made<C>(self, outcome: Result<C, String>) -> (r: Result<
        TranscriptStep<C>,
        RequestError,
    >)
        ensures
            match outcome {
                Ok(client) => r is Ok && r->Ok_0.client() == client && r->Ok_0.id() == self.id()
                    && r->Ok_0.proxied() == self.proxy() is Some,
                Err(cause) => r is Err && r->Err_0@ == RequestFault::ProviderInit(cause@),
            },
    {
        match outcome {
            Ok(client) => {
                let proxied: bool = self.proxy.is_some();
                Ok(TranscriptStep { client, id: self.id, proxied })
            },
            Err(cause) => Err(RequestError::ProviderInit(cause)),
        }
    }
}

impl<C> TranscriptStep<C> {
    /// The client of the request.
    pub closed spec fn client(&self) -> C {
        self.client
    }

    /// The identifier of the video.
    pub closed spec fn id(&self) -> Seq<char> {
        self.id@
    }

    /// Whether the client goes through a proxy.
    pub closed spec fn proxied(&self) -> bool {
        self.proxied
    }

    /// The client to ask.
    pub fn provider(&self) -> (client: &C)
        ensures
            *client == self.client(),
    {
        &self.client
    }

    /// The video to ask the transcript of.
    pub fn video_id(&self) -> (id: &str)
        ensures
            id@ == self.id(),
            is_video_id(id@),
    {
        self.id.as_str()
    }

    /// The one language to ask captions in.
    pub fn language(&self) -> (language: &'static str)
        ensures
            language@ == caption_language(),
    {
        "en"
    }

    /// Whether the captions are asked for with their formatting: never.
    pub fn preserve_formatting(&self) -> (flag: bool)
        ensures
            !flag,
    {
        false
    }

    /// Takes what fetching the transcript gave: the captions in the
    /// provider's order, or the provider's words.
    ///
    /// Captions lead to the metadata; a failure ends the request with
    /// `TranscriptFetch`, which says whether a proxy was configured.
    pub fn transcript_fetched(self, outcome: Result<Vec<Caption>, String>) -> (r: Result<
        MetadataStep<C>,
        RequestError,
    >)
        ensures
            match outcome {
                Ok(captions) => r is Ok && r->Ok_0.client() == self.client() && r->Ok_0.id()
                    == self.id() && r->Ok_0.captions() == captions_view(captions@),
                Err(cause) => r is Err && r->Err_0@ == (RequestFault::TranscriptFetch {
                    proxied: self.proxied(),
                    cause: cause@,
                }),
            },
    {
        match outcome {
            Ok(captions) => Ok(MetadataStep { client: self.client, id: self.id, captions }),
            Err(cause) => Err(RequestError::TranscriptFetch { proxied: self.proxied, cause }),
        }
    }
}

impl<C> MetadataStep<C> {
    /// The client of the request.
    pub closed spec fn client(&self) -> C {
        self.client
    }

    /// The identifier of the video.
    pub closed spec fn id(&self) -> Seq<char> {
        self.id@
    }

    /// The captions that the provider gave.
    pub closed spec fn captions(&self) -> Seq<CaptionView> {
        captions_view(self.captions@)
    }

    /// The client to ask.
    pub fn provider(&self) -> (client: &C)
        ensures
            *client == self.client(),
    {
        &self.client
    }

    /// The video to ask the metadata of.
    pub fn video_id(&self) -> (id: &str)
        ensures
            id@ == self.id(),
            is_video_id(id@),
    {
        self.id.as_str()
    }

    /// Takes what fetching the metadata gave: the details, or the provider's
    /// words.
    ///
    /// Details give the summary; a failure ends the request with
    /// `MetadataFetch`.
    pub fn metadata_fetched(self, outcome: Result<VideoDetails, String>) -> (r: Result<
        VideoSummary,
        RequestError,
    >)
        ensures
            match outcome {
                Ok(details) => r is Ok && r->Ok_0@ == summary_of(
                    self.id(),
                    self.captions(),
                    details@,
                ),
                Err(cause) => r is Err && r->Err_0@ == RequestFault::MetadataFetch(cause@),
            },
    {
        match outcome {
            Ok(details) => Ok(assemble(self.id, &self.captions, details)),
            Err(cause) => Err(RequestError::MetadataFetch(cause)),
        }
    }
}

} // verus!
