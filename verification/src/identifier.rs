//! Video identifiers: eleven characters, each a letter, a digit, `-` or `_`.

use crate::error::{Fault, ValidationError};
use crate::text::{to_chars, to_text};
use vstd::prelude::*;

verus! {

/// The number of characters of an identifier.
pub const ID_LENGTH: usize = 11;

/// Whether an identifier may hold `c`: an ASCII letter or digit, `-` or `_`.
pub open spec fn is_id_char(c: char) -> bool {
    ||| 'a' <= c <= 'z'
    ||| 'A' <= c <= 'Z'
    ||| '0' <= c <= '9'
    ||| c == '-'
    ||| c == '_'
}

/// The characters of `id` that no identifier may hold, in the order met.
pub open spec fn offending(id: Seq<char>) -> Seq<char> {
    id.filter(|c: char| !is_id_char(c))
}

/// Whether every character of `id` may stand in an identifier.
pub open spec fn all_id_chars(id: Seq<char>) -> bool {
    forall|i: int| 0 <= i < id.len() ==> is_id_char(#[trigger] id[i])
}

/// Whether `id` is a video identifier.
pub open spec fn is_video_id(id: Seq<char>) -> bool {
    id.len() == ID_LENGTH && all_id_chars(id)
}

/// What is wrong with `id`, if anything: the length is looked at first.
pub open spec fn id_fault(id: Seq<char>) -> Option<Fault> {
    if id.len() != ID_LENGTH {
        Some(Fault::Length)
    } else if !all_id_chars(id) {
        Some(Fault::Charset(offending(id)))
    } else {
        None
    }
}

/// Whether an identifier may hold `c`.
pub fn id_char(c: char) -> (b: bool)
    ensures
        b == is_id_char(c),
{
    (c >= 'a' && c <= 'z') || (c >= 'A' && c <= 'Z') || (c >= '0' && c <= '9') || c == '-' || c
        == '_'
}

/// Checks `chars[from..to]` as an identifier.
pub(crate) fn validate_chars(chars: &Vec<char>, from: usize, to: usize) -> (r: Result<
    (),
    ValidationError,
>)
    requires
        from <= to <= chars.len(),
    ensures
        match r {
            Ok(()) => id_fault(chars@.subrange(from as int, to as int)) is None,
            Err(e) => id_fault(chars@.subrange(from as int, to as int)) == Some(e@),
        },
{
    let ghost id = chars@.subrange(from as int, to as int);
    if to - from != ID_LENGTH {
        return Err(ValidationError::Length);
    }
    let mut bad: Vec<char> = Vec::new();
    let mut i: usize = from;
    assert(id.take(0) =~= Seq::<char>::empty());
    while i < to
        invariant
            from <= i <= to <= chars.len(),
            id == chars@.subrange(from as int, to as int),
            bad@ == offending(id.take(i - from)),
            bad@.len() == 0 <==> all_id_chars(id.take(i - from)),
        decreases to - i,
    {
        let c: char = chars[i];
        proof {
            let seen = id.take(i - from);
            assert(id.take(i - from + 1) =~= seen.push(c));
            seen.lemma_filter_push(c, |c: char| !is_id_char(c));
            if is_id_char(c) {
                assert(all_id_chars(seen) ==> all_id_chars(seen.push(c)));
                assert(!all_id_chars(seen) ==> !all_id_chars(seen.push(c))) by {
                    if !all_id_chars(seen) {
                        let j = choose|j: int| 0 <= j < seen.len() && !is_id_char(seen[j]);
                        assert(seen.push(c)[j] == seen[j]);
                    }
                }
            } else {
                assert(seen.push(c)[seen.len() as int] == c);
            }
        }
        if !id_char(c) {
            bad.push(c);
        }
        i += 1;
    }
    assert(id.take(to - from) =~= id);
    if bad.len() > 0 {
        Err(ValidationError::Charset(bad))
    } else {
        Ok(())
    }
}

/// Checks a raw identifier.
///
/// One whose length is not eleven is refused for its length, whatever it
/// holds. One of eleven characters is accepted if each is a letter, a digit,
/// `-` or `_`, and is otherwise refused with every offending character, in
/// the order met.
pub fn validate_video_id(video_id: &str) -> (r: Result<(), ValidationError>)
    ensures
        match r {
            Ok(()) => id_fault(video_id@) is None,
            Err(e) => id_fault(video_id@) == Some(e@),
        },
        video_id@.len() != ID_LENGTH ==> r is Err && r->Err_0@ == Fault::Length,
        video_id@.len() == ID_LENGTH && all_id_chars(video_id@) ==> r is Ok,
        r is Ok <==> is_video_id(video_id@),
{
    let chars = to_chars(video_id);
    assert(chars@.subrange(0, chars@.len() as int) =~= chars@);
    validate_chars(&chars, 0, chars.len())
}

/// A video identifier: a string that passed `validate_video_id`.
#[derive(Debug, PartialEq, Eq)]
pub struct VideoIdentifier {
    text: String,
}

impl View for VideoIdentifier {
    type V = Seq<char>;

    closed spec fn view(&self) -> Seq<char> {
        self.text@
    }
}

impl Clone for VideoIdentifier {
    fn clone(&self) -> (copy: Self)
        ensures
            copy@ == self@,
    {
        proof {
            use_type_invariant(self);
        }
        VideoIdentifier { text: self.text.clone() }
    }
}

impl VideoIdentifier {
    #[verifier::type_invariant]
    spec fn well_formed(self) -> bool {
        is_video_id(self.text@)
    }

    /// The identifier that `raw` is, or what is wrong with `raw`.
    pub fn parse(raw: &str) -> (r: Result<VideoIdentifier, ValidationError>)
        ensures
            match r {
                Ok(id) => id@ == raw@ && is_video_id(raw@),
                Err(e) => id_fault(raw@) == Some(e@),
            },
    {
        match validate_video_id(raw) {
            Ok(()) => Ok(VideoIdentifier { text: String::from_str(raw) }),
            Err(e) => Err(e),
        }
    }

    /// The identifier that `chars[from..to]` is, or what is wrong with it.
    pub(crate) fn from_chars(chars: &Vec<char>, from: usize, to: usize) -> (r: Result<
        VideoIdentifier,
        ValidationError,
    >)
        requires
            from <= to <= chars.len(),
        ensures
            match r {
                Ok(id) => id@ == chars@.subrange(from as int, to as int) && is_video_id(id@),
                Err(e) => id_fault(chars@.subrange(from as int, to as int)) == Some(e@),
            },
    {
        match validate_chars(chars, from, to) {
            Ok(()) => Ok(VideoIdentifier { text: to_text(chars, from, to) }),
            Err(e) => Err(e),
        }
    }

    /// The identifier as text.
    pub fn as_str(&self) -> (s: &str)
        ensures
            s@ == self@,
            is_video_id(self@),
    {
        proof {
            use_type_invariant(self);
        }
        self.text.as_str()
    }

    /// The identifier as an owned string.
    pub fn into_string(self) -> (s: String)
        ensures
            s@ == self@,
            is_video_id(self@),
    {
        proof {
            use_type_invariant(&self);
        }
        self.text
    }
}

} // verus!
