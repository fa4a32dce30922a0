//! What the provider hands over and what goes out to the caller.

use crate::binary64::{whole_part, Seconds};
use crate::format::{
    clean_caption_text,
    format_views,
    seconds_to_timestamp,
    timestamp_text,
    views_text,
    without_marks,
};
use crate::identifier::VideoIdentifier;
use vstd::prelude::*;

verus! {

/// One caption unit as the provider gives it.
#[derive(Debug, Clone, PartialEq, Eq)]
pub struct Caption {
    /// When the caption appears.
    pub start: Seconds,
    /// How long it stays.
    pub duration: Seconds,
    /// The caption line.
    pub text: String,
}

/// `Caption` as a mathematical value; the times are bit patterns.
pub struct CaptionView {
    pub start: u64,
    pub duration: u64,
    pub text: Seq<char>,
}

impl View for Caption {
    type V = CaptionView;

    open spec fn view(&self) -> CaptionView {
        CaptionView { start: self.start.bits, duration: self.duration.bits, text: self.text@ }
    }
}

/// What the provider tells of a video.
#[derive(Debug, Clone, PartialEq, Eq)]
pub struct VideoDetails {
    pub title: String,
    pub author: String,
    /// The number of views, as the provider writes it.
    pub view_count: String,
}

/// `VideoDetails` as a mathematical value.
pub struct DetailsView {
    pub title: Seq<char>,
    pub author: Seq<char>,
    pub view_count: Seq<char>,
}

impl View for VideoDetails {
    type V = DetailsView;

    open spec fn view(&self) -> DetailsView {
        DetailsView { title: self.title@, author: self.author@, view_count: self.view_count@ }
    }
}

/// One caption unit as it goes out.
#[derive(Debug, Clone, PartialEq, Eq)]
pub struct TranscriptSnippet {
    /// When the caption appears, as a clock.
    pub start: String,
    /// How long it stays, as the provider gave it.
    pub duration: Seconds,
    /// The caption line, without speaker marks.
    pub text: String,
}

/// `TranscriptSnippet` as a mathematical value.
pub struct SnippetView {
    pub start: Seq<char>,
    pub duration: u64,
    pub text: Seq<char>,
}

impl View for TranscriptSnippet {
    type V = SnippetView;

    open spec fn view(&self) -> SnippetView {
        SnippetView { start: self.start@, duration: self.duration.bits, text: self.text@ }
    }
}

/// A video with its transcript, as it goes out.
#[derive(Debug, Clone, PartialEq, Eq)]
pub struct VideoSummary {
    pub id: String,
    pub title: String,
    pub author: String,
    /// The number of views, in short.
    pub views: String,
    /// The captions, in the provider's order.
    pub transcript: Vec<TranscriptSnippet>,
}

/// `VideoSummary` as a mathematical value.
pub struct SummaryView {
    pub id: Seq<char>,
    pub title: Seq<char>,
    pub author: Seq<char>,
    pub views: Seq<char>,
    pub transcript: Seq<SnippetView>,
}

impl View for VideoSummary {
    type V = SummaryView;

    open spec fn view(&self) -> SummaryView {
        SummaryView {
            id: self.id@,
            title: self.title@,
            author: self.author@,
            views: self.views@,
            transcript: self.transcript@.map_values(|s: TranscriptSnippet| s@),
        }
    }
}

/// The captions of a list, each as a mathematical value.
pub open spec fn captions_view(captions: Seq<Caption>) -> Seq<CaptionView> {
    captions.map_values(|c: Caption| c@)
}

/// The snippet that a caption becomes: the start as a clock, the duration
/// untouched, the line without speaker marks.
pub open spec fn snippet_of(caption: CaptionView) -> SnippetView {
    SnippetView {
        start: timestamp_text(whole_part(caption.start)),
        duration: caption.duration,
        text: without_marks(caption.text),
    }
}

/// The summary of a video: a snippet for each caption, in the same order,
/// the view count in short, title and author as they came.
pub open spec fn summary_of(
    id: Seq<char>,
    captions: Seq<CaptionView>,
    details: DetailsView,
) -> SummaryView {
    SummaryView {
        id,
        title: details.title,
        author: details.author,
        views: views_text(details.view_count),
        transcript: captions.map_values(|c: CaptionView| snippet_of(c)),
    }
}

/// Turns a caption into the snippet that goes out.
pub fn to_snippet(caption: &Caption) -> (snippet: TranscriptSnippet)
    ensures
        snippet@ == snippet_of(caption@),
{
    TranscriptSnippet {
        start: seconds_to_timestamp(caption.start),
        duration: caption.duration,
        text: clean_caption_text(caption.text.as_str()),
    }
}

/// Puts the summary of a video together.
pub fn assemble(id: VideoIdentifier, captions: &Vec<Caption>, details: VideoDetails) -> (summary:
    VideoSummary)
    ensures
        summary@ == summary_of(id@, captions_view(captions@), details@),
{
    let mut transcript: Vec<TranscriptSnippet> = Vec::new();
    let mut i: usize = 0;
    while i < captions.len()
        invariant
            i <= captions.len(),
            transcript.len() == i,
            forall|j: int| 0 <= j < i ==> (#[trigger] transcript@[j])@ == snippet_of(captions@[j]@),
        decreases captions.len() - i,
    {
        transcript.push(to_snippet(&captions[i]));
        i += 1;
    }
    let views = format_views(details.view_count.as_str());
    let summary = VideoSummary {
        id: id.into_string(),
        title: details.title,
        author: details.author,
        views,
        transcript,
    };
    assert(summary@.transcript =~= summary_of(
        id@,
        captions_view(captions@),
        details@,
    ).transcript);
    summary
}

} // verus!
