use caption::binary64::Seconds;
use caption::error::{RequestError, ValidationError, STATUS_BAD_REQUEST, STATUS_SERVER_ERROR};
use caption::model::{assemble, to_snippet, Caption, TranscriptSnippet, VideoDetails, VideoSummary};
use caption::identifier::VideoIdentifier;
use caption::orchestrator::{handle, TranscriptRequest};

fn text(s: &str) -> Option<String> {
    Some(s.to_string())
}

fn seconds(value: f64) -> Seconds {
    Seconds { bits: value.to_bits() }
}

fn caption(start: f64, duration: f64, line: &str) -> Caption {
    Caption { start: seconds(start), duration: seconds(duration), text: line.to_string() }
}

fn details(title: &str, author: &str, view_count: &str) -> VideoDetails {
    VideoDetails {
        title: title.to_string(),
        author: author.to_string(),
        view_count: view_count.to_string(),
    }
}

/// A provider's client that only has a name.
#[derive(Debug, PartialEq)]
struct Stub(&'static str);

#[test]
fn both_fields_conflict() {
    assert_eq!(
        TranscriptRequest::from_fields(text("dQw4w9WgXcQ"), text("https://youtu.be/dQw4w9WgXcQ")),
        Err(RequestError::ConflictingInput)
    );
    assert_eq!(
        TranscriptRequest::from_fields(text(""), text("")),
        Err(RequestError::ConflictingInput)
    );
    assert!(matches!(
        handle(text("dQw4w9WgXcQ"), text("https://youtu.be/dQw4w9WgXcQ"), None),
        Err(RequestError::ConflictingInput)
    ));
    assert!(matches!(
        handle(text("bad"), text("bad"), text("http://proxy:8080")),
        Err(RequestError::ConflictingInput)
    ));
}

#[test]
fn no_field_is_missing_input() {
    assert_eq!(TranscriptRequest::from_fields(None, None), Err(RequestError::MissingInput));
    assert!(matches!(handle(None, None, None), Err(RequestError::MissingInput)));
    assert!(matches!(
        handle(None, None, text("http://proxy:8080")),
        Err(RequestError::MissingInput)
    ));
}

#[test]
fn one_field_makes_a_request() {
    assert_eq!(
        TranscriptRequest::from_fields(text("dQw4w9WgXcQ"), None),
        Ok(TranscriptRequest::ByIdentifier("dQw4w9WgXcQ".to_string()))
    );
    assert_eq!(
        TranscriptRequest::from_fields(None, text("https://youtu.be/dQw4w9WgXcQ")),
        Ok(TranscriptRequest::ByUrl("https://youtu.be/dQw4w9WgXcQ".to_string()))
    );
}

#[test]
fn a_request_resolves_to_its_identifier() {
    let by_id = TranscriptRequest::ByIdentifier("dQw4w9WgXcQ".to_string());
    assert_eq!(by_id.resolve().unwrap().as_str(), "dQw4w9WgXcQ");
    let by_url = TranscriptRequest::ByUrl("https://youtu.be/dQw4w9WgXcQ?t=5".to_string());
    assert_eq!(by_url.resolve().unwrap().as_str(), "dQw4w9WgXcQ");
}

#[test]
fn a_refused_identifier_or_url_is_handed_on() {
    assert_eq!(
        TranscriptRequest::ByIdentifier("short".to_string()).resolve(),
        Err(RequestError::Invalid(ValidationError::Length))
    );
    assert_eq!(
        TranscriptRequest::ByIdentifier("dQw4w9WgXc!".to_string()).resolve(),
        Err(RequestError::Invalid(ValidationError::Charset(vec!['!'])))
    );
    assert_eq!(
        TranscriptRequest::ByUrl("https://example.com/video".to_string()).resolve(),
        Err(RequestError::Invalid(ValidationError::UnsupportedUrl))
    );
    assert_eq!(
        TranscriptRequest::ByUrl("https://youtu.be/nope".to_string()).resolve(),
        Err(RequestError::Invalid(ValidationError::UrlParse))
    );
    assert!(matches!(
        handle(text("https://youtu.be/dQw4w9WgXcQ"), None, None),
        Err(RequestError::Invalid(ValidationError::Length))
    ));
    assert!(matches!(
        handle(None, text("dQw4w9WgXcQ"), None),
        Err(RequestError::Invalid(ValidationError::UnsupportedUrl))
    ));
}

#[test]
fn end_to_end_with_a_stub_provider() {
    let step = handle(text("dQw4w9WgXcQ"), None, None).unwrap();
    assert!(!step.has_proxy());
    assert_eq!(step.proxy_url(), None);

    let step = step.client_made(Ok(Stub("provider"))).unwrap();
    assert_eq!(step.provider(), &Stub("provider"));
    assert_eq!(step.video_id(), "dQw4w9WgXcQ");
    assert_eq!(step.language(), "en");
    assert!(!step.preserve_formatting());

    let step = step.transcript_fetched(Ok(vec![caption(5.0, 2.0, ">> hi")])).unwrap();
    assert_eq!(step.provider(), &Stub("provider"));
    assert_eq!(step.video_id(), "dQw4w9WgXcQ");

    let summary = step.metadata_fetched(Ok(details("T", "A", "2500000"))).unwrap();
    assert_eq!(
        summary,
        VideoSummary {
            id: "dQw4w9WgXcQ".to_string(),
            title: "T".to_string(),
            author: "A".to_string(),
            views: "2.5M".to_string(),
            transcript: vec![TranscriptSnippet {
                start: "00:05".to_string(),
                duration: seconds(2.0),
                text: "hi".to_string(),
            }],
        }
    );
    assert_eq!(f64::from_bits(summary.transcript[0].duration.bits), 2.0);
}

#[test]
fn end_to_end_from_a_url_through_a_proxy() {
    let step = handle(
        None,
        text(" https://www.youtube.com/watch?v=dQw4w9WgXcQ&t=5 "),
        text("http://proxy.example:8080"),
    )
    .unwrap();
    assert!(step.has_proxy());
    assert_eq!(step.proxy_url(), text("http://proxy.example:8080"));
    let step = step.client_made(Ok(())).unwrap();
    assert_eq!(step.video_id(), "dQw4w9WgXcQ");
    let step = step
        .transcript_fetched(Ok(vec![
            caption(0.0, 1.5, "first"),
            caption(61.7, 2.25, ">> second >> line"),
            caption(3725.2, 4.0, "third"),
        ]))
        .unwrap();
    let summary = step.metadata_fetched(Ok(details("Title", "Author", "n/a"))).unwrap();
    assert_eq!(summary.id, "dQw4w9WgXcQ");
    assert_eq!(summary.views, "n/a");
    let starts: Vec<&str> = summary.transcript.iter().map(|s| s.start.as_str()).collect();
    assert_eq!(starts, vec!["00:00", "01:01", "01:02:05"]);
    let lines: Vec<&str> = summary.transcript.iter().map(|s| s.text.as_str()).collect();
    assert_eq!(lines, vec!["first", "second line", "third"]);
    let durations: Vec<f64> =
        summary.transcript.iter().map(|s| f64::from_bits(s.duration.bits)).collect();
    assert_eq!(durations, vec![1.5, 2.25, 4.0]);
}

#[test]
fn a_client_that_cannot_be_made_ends_the_request() {
    let step = handle(text("dQw4w9WgXcQ"), None, None).unwrap();
    let failed = step.client_made::<Stub>(Err("Cookie error".to_string())).err().unwrap();
    assert_eq!(failed, RequestError::ProviderInit("Cookie error".to_string()));
    assert_eq!(failed.message(), "API init error: Cookie error");
    assert_eq!(failed.status(), STATUS_SERVER_ERROR);
}

#[test]
fn a_transcript_that_cannot_be_fetched_ends_the_request() {
    let step = handle(text("dQw4w9WgXcQ"), None, None).unwrap();
    let step = step.client_made(Ok(())).unwrap();
    let failed = step.transcript_fetched(Err("no captions".to_string())).err().unwrap();
    assert_eq!(
        failed,
        RequestError::TranscriptFetch { proxied: false, cause: "no captions".to_string() }
    );
    assert_eq!(failed.message(), "Transcript error (proxy=false): no captions");
    assert_eq!(failed.status(), 500);

    let step = handle(text("dQw4w9WgXcQ"), None, text("http://proxy:1")).unwrap();
    let step = step.client_made(Ok(())).unwrap();
    let failed = step.transcript_fetched(Err("blocked".to_string())).err().unwrap();
    assert_eq!(failed.message(), "Transcript error (proxy=true): blocked");
}

#[test]
fn metadata_that_cannot_be_fetched_ends_the_request() {
    let step = handle(text("dQw4w9WgXcQ"), None, None).unwrap();
    let step = step.client_made(Ok(())).unwrap();
    let step = step.transcript_fetched(Ok(vec![caption(5.0, 2.0, ">> hi")])).unwrap();
    let failed = step.metadata_fetched(Err("video unavailable".to_string())).err().unwrap();
    assert_eq!(failed, RequestError::MetadataFetch("video unavailable".to_string()));
    assert_eq!(failed.message(), "video unavailable");
    assert_eq!(failed.status(), STATUS_SERVER_ERROR);
}

#[test]
fn input_errors_are_the_callers_fault() {
    let errors = [
        RequestError::ConflictingInput,
        RequestError::MissingInput,
        RequestError::Invalid(ValidationError::Length),
        RequestError::Invalid(ValidationError::Charset(vec!['!'])),
        RequestError::Invalid(ValidationError::UrlParse),
        RequestError::Invalid(ValidationError::UnsupportedUrl),
    ];
    for error in errors {
        assert!(error.is_input_error());
        assert_eq!(error.status(), STATUS_BAD_REQUEST);
        assert_eq!(error.status(), 400);
        assert!(!error.message().is_empty());
    }
}

#[test]
fn request_messages() {
    assert_eq!(
        RequestError::ConflictingInput.message(),
        "Cannot provide both video_id and video_url. Use one or the other."
    );
    assert_eq!(
        RequestError::MissingInput.message(),
        "Must provide either video_id or video_url."
    );
    assert_eq!(
        RequestError::Invalid(ValidationError::Length).message(),
        "video_id must be exactly 11 characters"
    );
    assert_eq!(
        RequestError::Invalid(ValidationError::Charset(vec!['#', '#'])).message(),
        "video_id contains invalid characters: ['#', '#']"
    );
    assert_eq!(
        RequestError::Invalid(ValidationError::UnsupportedUrl).message(),
        "invalid YouTube URL: must be youtube.com/watch or youtu.be URL"
    );
}

#[test]
fn a_snippet_keeps_the_duration_and_cleans_the_rest() {
    let snippet = to_snippet(&caption(3661.9, 0.25, ">> a >> b"));
    assert_eq!(snippet.start, "01:01:01");
    assert_eq!(f64::from_bits(snippet.duration.bits), 0.25);
    assert_eq!(snippet.text, "a b");
}

#[test]
fn a_summary_keeps_the_providers_order() {
    let id = VideoIdentifier::parse("dQw4w9WgXcQ").unwrap();
    let captions = vec![caption(9.0, 1.0, "c"), caption(1.0, 1.0, "a"), caption(5.0, 1.0, "b")];
    let summary = assemble(id, &captions, details("T", "A", "1234"));
    assert_eq!(summary.views, "1.2K");
    let lines: Vec<&str> = summary.transcript.iter().map(|s| s.text.as_str()).collect();
    assert_eq!(lines, vec!["c", "a", "b"]);
    let empty = assemble(
        VideoIdentifier::parse("dQw4w9WgXcQ").unwrap(),
        &Vec::new(),
        details("", "", ""),
    );
    assert_eq!(empty.transcript, Vec::new());
    assert_eq!(empty.views, "");
}

#[test]
fn the_main_items_stand_at_the_root() {
    assert_eq!(caption::format_views("1500"), "1.5K");
    assert_eq!(caption::validate_video_id("dQw4w9WgXcQ"), Ok(()));
    assert_eq!(
        caption::extract_id_from_url("https://youtu.be/dQw4w9WgXcQ").unwrap().as_str(),
        "dQw4w9WgXcQ"
    );
    assert_eq!(caption::clean_caption_text(">> hello"), "hello");
    assert_eq!(
        caption::seconds_to_timestamp(caption::Seconds { bits: 65.9f64.to_bits() }),
        "01:05"
    );
}
