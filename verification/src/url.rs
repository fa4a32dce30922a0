//! Finding the video identifier in a video URL.

use crate::error::{Fault, ValidationError};
use crate::identifier::{is_video_id, VideoIdentifier};
use crate::text::{copy_range, find, first_occurrence, to_chars, trim, trimmed};
use vstd::prelude::*;

verus! {

/// What marks the URL of a watch page.
pub open spec fn watch_marker() -> Seq<char> {
    "youtube.com/watch"@
}

/// What introduces the identifier in the URL of a watch page.
pub open spec fn id_parameter() -> Seq<char> {
    "v="@
}

/// What marks a short link, and introduces the identifier in it.
pub open spec fn short_marker() -> Seq<char> {
    "youtu.be/"@
}

/// Whether `pat` stands somewhere in `s`.
pub open spec fn contains(s: Seq<char>, pat: Seq<char>) -> bool {
    first_occurrence(s, pat) is Some
}

/// `s` up to its first `stop`, or all of `s` where it holds none.
pub open spec fn up_to(s: Seq<char>, stop: char) -> Seq<char> {
    match first_occurrence(s, seq![stop]) {
        Some(end) => s.take(end),
        None => s,
    }
}

/// What follows the first `marker` in `s`, up to the next `stop` or the end
/// of `s`; nothing where `s` holds no `marker`.
pub open spec fn segment_after(s: Seq<char>, marker: Seq<char>, stop: char) -> Option<Seq<char>> {
    match first_occurrence(s, marker) {
        Some(at) => Some(up_to(s.skip(at + marker.len()), stop)),
        None => None,
    }
}

/// The identifier that a segment of a URL is, if it is one.
pub open spec fn identified(segment: Option<Seq<char>>) -> Result<Seq<char>, Fault> {
    match segment {
        Some(id) => if is_video_id(id) {
            Ok(id)
        } else {
            Err(Fault::UrlParse)
        },
        None => Err(Fault::UrlParse),
    }
}

/// The identifier in `url`, or why none is found.
///
/// White space around the URL does not count. A URL that holds the watch-page
/// marker is read as a watch page and as nothing else: its identifier follows
/// the first `v=` and ends before the next `&`. Any other URL that holds the
/// short-link marker is read as a short link: its identifier follows the marker
/// and ends before the next `?`.
pub open spec fn url_identifier(url: Seq<char>) -> Result<Seq<char>, Fault> {
    let u = trimmed(url);
    if contains(u, watch_marker()) {
        identified(segment_after(u, id_parameter(), '&'))
    } else if contains(u, short_marker()) {
        identified(segment_after(u, short_marker(), '?'))
    } else {
        Err(Fault::UnsupportedUrl)
    }
}

/// The identifier that follows the first `marker` in `chars` and ends before
/// the next `stop`.
fn identifier_after(chars: &Vec<char>, marker: &Vec<char>, stop: char) -> (r: Result<
    VideoIdentifier,
    ValidationError,
>)
    ensures
        match r {
            Ok(id) => identified(segment_after(chars@, marker@, stop)) == Ok::<Seq<char>, Fault>(
                id@,
            ),
            Err(e) => e@ == Fault::UrlParse && identified(segment_after(chars@, marker@, stop))
                == Err::<Seq<char>, Fault>(Fault::UrlParse),
        },
{
    let at: usize = match find(chars, marker) {
        Some(at) => at,
        None => { return Err(ValidationError::UrlParse); },
    };
    proof {
        crate::text::lemma_first_occurrence_from(chars@, marker@, 0);
    }
    let total: usize = chars.len();
    let start: usize = at + marker.len();
    let rest = copy_range(chars, start, total);
    assert(rest@ =~= chars@.skip(start as int));
    let stops: Vec<char> = vec![stop];
    assert(stops@ =~= seq![stop]);
    let end: usize = match find(&rest, &stops) {
        Some(end) => end,
        None => rest.len(),
    };
    proof {
        crate::text::lemma_first_occurrence_from(rest@, stops@, 0);
        assert(rest@.subrange(0, end as int) =~= up_to(rest@, stop));
    }
    match VideoIdentifier::from_chars(&rest, 0, end) {
        Ok(id) => Ok(id),
        Err(_) => Err(ValidationError::UrlParse),
    }
}

/// Finds the video identifier in a watch-page URL or a short link.
///
/// Fails with `UnsupportedUrl` where the URL is of neither form, and with
/// `UrlParse` where it is of one of them and what stands in the identifier's
/// place is no valid identifier. A URL that holds the watch-page marker is
/// never read as a short link.
pub fn extract_id_from_url(url: &str) -> (r: Result<VideoIdentifier, ValidationError>)
    ensures
        match r {
            Ok(id) => url_identifier(url@) == Ok::<Seq<char>, Fault>(id@),
            Err(e) => url_identifier(url@) == Err::<Seq<char>, Fault>(e@),
        },
{
    let raw = to_chars(url);
    let chars = trim(&raw);
    let watch = to_chars("youtube.com/watch");
    let short = to_chars("youtu.be/");
    if find(&chars, &watch).is_some() {
        let parameter = to_chars("v=");
        identifier_after(&chars, &parameter, '&')
    } else if find(&chars, &short).is_some() {
        identifier_after(&chars, &short, '?')
    } else {
        Err(ValidationError::UnsupportedUrl)
    }
}

/// What is found in a URL is a video identifier.
pub proof fn lemma_url_identifier_is_valid(url: Seq<char>)
    ensures
        url_identifier(url) matches Ok(id) ==> is_video_id(id),
        url_identifier(url) matches Err(fault) ==> fault == Fault::UrlParse || fault
            == Fault::UnsupportedUrl,
{
}

/// A URL that holds the watch-page marker is judged as a watch page alone:
/// where no valid identifier follows its `v=`, the URL is refused, whatever
/// short link it also holds.
pub proof fn lemma_watch_page_goes_first(url: Seq<char>)
    requires
        contains(trimmed(url), watch_marker()),
    ensures
        url_identifier(url) == identified(segment_after(trimmed(url), id_parameter(), '&')),
        !(segment_after(trimmed(url), id_parameter(), '&') matches Some(id) && is_video_id(id))
            ==> url_identifier(url) == Err::<Seq<char>, Fault>(Fault::UrlParse),
{
}

} // verus!
