use vstd::prelude::*;
use vstd::string::*;

verus! {

/// The media type that `mime_guess` associates with a path, or `None` where
/// it knows none. It looks at the path's extension alone, in a table fixed
/// when the crate was built; no contract here says what the type is for any
/// given path.
pub uninterp spec fn guessed_mime(path: Seq<char>) -> Option<Seq<char>>;

/// Calls `mime_guess::mime_str_for_path_ext`, which looks the extension of
/// the path up in its table and never touches the disk, and hands back what
/// it found. The contract claims only that the answer depends on nothing but
/// the path.
#[verifier::external_body]
#[allow(deprecated)]
pub(crate) fn guess_mime(path: &str) -> (mime: Option<String>)
    ensures
        match mime {
            Some(m) => guessed_mime(path@) == Some(m@),
            None => guessed_mime(path@) is None,
        },
{
    match mime_guess::mime_str_for_path_ext(path) {
        Some(mime) => Some(mime.to_string()),
        None => None,
    }
}

/// The media type an entry is given: the guess, or that of arbitrary bytes
/// where there is no guess.
pub open spec fn media_type_of(guess: Option<Seq<char>>) -> Seq<char> {
    match guess {
        Some(mime) => mime,
        None => "application/octet-stream"@,
    }
}

/// Settles on a media type, given the guess.
pub fn media_type(guess: Option<String>) -> (mime: String)
    ensures
        mime@ == media_type_of(
            match guess {
                Some(m) => Some(m@),
                None => None,
            },
        ),
{
    match guess {
        Some(mime) => mime,
        None => String::from_str("application/octet-stream"),
    }
}

} // verus!
