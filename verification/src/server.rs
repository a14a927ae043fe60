//! The web front end: which file answers a request, and how the messages of
//! a run are put on the wire.

use crate::text::{chars_of, decimal_text, first_index, find_char, push_decimal, string_of_range};
use vstd::prelude::*;
use vstd::string::StringExecFns;

verus! {

/// The media type that `mime_guess` gives a path by its extension, or
/// `application/octet-stream` where it knows none.
pub uninterp spec fn guessed_mime(path: Seq<char>) -> Seq<char>;

/// Calls `mime_guess::from_path` and `MimeGuess::first_or_octet_stream`. The
/// media type is a function of the path's text alone.
#[verifier::external_body]
fn guess_mime(path: &str) -> (mime: String)
    ensures
        mime@ == guessed_mime(path@),
{
    mime_guess::from_path(path).first_or_octet_stream().as_ref().to_owned()
}

/// The port that the server listens on where none is named.
pub const DEFAULT_PORT: u16 = 3000;

/// The address that the server listens on where none is named.
pub const DEFAULT_HOST: &'static str = "0.0.0.0";

/// The page that stands for every path of the application.
pub const INDEX_PAGE: &'static str = "index.html";

/// `path` without the slashes at its start.
pub open spec fn without_leading_slashes(path: Seq<char>) -> Seq<char>
    decreases path.len(),
{
    if path.len() > 0 && path[0] == '/' {
        without_leading_slashes(path.drop_first())
    } else {
        path
    }
}

/// The file that a request for `path` asks for: the path without the slashes
/// at its start, or the index page where nothing is left.
pub open spec fn asset_for(path: Seq<char>) -> Seq<char> {
    let rest = without_leading_slashes(path);
    if rest.len() == 0 {
        INDEX_PAGE@
    } else {
        rest
    }
}

/// The file that a request for `path` asks for.
pub fn asset_path(path: &str) -> (asset: String)
    ensures
        asset@ == asset_for(path@),
{
    let chars = chars_of(path);
    let mut from: usize = 0;
    assert(chars@.subrange(0, chars@.len() as int) =~= chars@);
    while from < chars.len() && chars[from] == '/'
        invariant
            from <= chars.len(),
            without_leading_slashes(chars@) == without_leading_slashes(
                chars@.subrange(from as int, chars@.len() as int),
            ),
        decreases chars.len() - from,
    {
        assert(chars@.subrange(from as int, chars@.len() as int).drop_first() =~= chars@.subrange(
            from + 1,
            chars@.len() as int,
        ));
        from += 1;
    }
    if from == chars.len() {
        INDEX_PAGE.to_owned()
    } else {
        string_of_range(&chars, from, chars.len())
    }
}

/// What answers a request for a file.
pub enum StaticAnswer {
    /// The file of this name, with this media type.
    Asset { name: String, mime: String },
    /// Nothing: the file is not there.
    NotFound,
}

/// The answer to a request as plain text.
pub ghost enum StaticAnswerView {
    Asset { name: Seq<char>, mime: Seq<char> },
    NotFound,
}

impl View for StaticAnswer {
    type V = StaticAnswerView;

    open spec fn view(&self) -> StaticAnswerView {
        match self {
            StaticAnswer::Asset { name, mime } => StaticAnswerView::Asset {
                name: name@,
                mime: mime@,
            },
            StaticAnswer::NotFound => StaticAnswerView::NotFound,
        }
    }
}

/// The answer to a request for `path`: the file it asks for where that is
/// there; else, for a path without a dot, the index page where that is there;
/// else nothing.
pub open spec fn answer_for(path: Seq<char>, has_asset: bool, has_index: bool) -> StaticAnswerView {
    let asset = asset_for(path);
    if has_asset {
        StaticAnswerView::Asset { name: asset, mime: guessed_mime(asset) }
    } else if first_index(asset, '.') is Some {
        StaticAnswerView::NotFound
    } else if has_index {
        StaticAnswerView::Asset { name: INDEX_PAGE@, mime: guessed_mime(INDEX_PAGE@) }
    } else {
        StaticAnswerView::NotFound
    }
}

/// Answers a request for `path`, given whether the file it asks for and the
/// index page are there.
pub fn static_handler(path: &str, has_asset: bool, has_index: bool) -> (answer: StaticAnswer)
    ensures
        answer@ == answer_for(path@, has_asset, has_index),
{
    let asset = asset_path(path);
    if has_asset {
        let mime = guess_mime(asset.as_str());
        StaticAnswer::Asset { name: asset, mime }
    } else {
        let chars = chars_of(asset.as_str());
        assert(chars@.subrange(0, chars@.len() as int) =~= chars@);
        if find_char(&chars, 0, chars.len(), '.').is_some() {
            StaticAnswer::NotFound
        } else if has_index {
            StaticAnswer::Asset { name: INDEX_PAGE.to_owned(), mime: guess_mime(INDEX_PAGE) }
        } else {
            StaticAnswer::NotFound
        }
    }
}

/// The address that the server binds to.
pub fn bind_address(host: &str, port: u16) -> (address: String)
    ensures
        address@ == host@ + ":"@ + decimal_text(port as nat),
{
    let mut address = host.to_owned();
    address.append(":");
    push_decimal(&mut address, port as u64);
    address
}

/// A message of a run as it is sent to the listeners.
pub fn log_frame(message: &str) -> (frame: String)
    ensures
        frame@ == "LOG:"@ + message@,
{
    let mut frame = "LOG:".to_owned();
    frame.append(message);
    frame
}

/// A step of progress as it is sent to the listeners.
pub fn progress_frame(current: usize, total: usize, message: &str) -> (frame: String)
    ensures
        frame@ == "PROG:"@ + decimal_text(current as nat) + ":"@ + decimal_text(total as nat)
            + ":"@ + message@,
{
    let mut frame = "PROG:".to_owned();
    push_decimal(&mut frame, current as u64);
    frame.append(":");
    push_decimal(&mut frame, total as u64);
    frame.append(":");
    frame.append(message);
    frame
}

} // verus!
