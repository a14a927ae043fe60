//! Fetching a chapter from MangaDex: which chapter a URL names, where its
//! pages are, and where they are put.

use crate::paths::{join, path_join};
use crate::text::{
    chars_of, decimal_text, find, find_char, first_index, first_position, push_decimal,
    same_text, string_of_range, trim, trimmed,
};
use vstd::prelude::*;
use vstd::string::StringExecFns;

verus! {

/// Whether a character is a letter or a number, as `char::is_alphanumeric` has it.
pub uninterp spec fn is_alphanumeric(c: char) -> bool;

/// `char::is_alphanumeric` depends on the character alone.
pub assume_specification[ char::is_alphanumeric ](c: char) -> (r: bool)
    ensures
        r == is_alphanumeric(c),
;

/// The shortest text that is taken for the identifier of a chapter, in bytes.
pub const MIN_UUID_LEN: usize = 36;

/// What stands between `chapter/` and the next slash in a URL.
pub open spec fn chapter_part(url: Seq<char>, at: int) -> Seq<char> {
    let rest = url.subrange(at + 8, url.len() as int);
    match first_index(rest, '/') {
        Some(i) => rest.subrange(0, i),
        None => rest,
    }
}

/// The identifier of the chapter that a URL names: what follows the first
/// `chapter/` up to the next slash, if that is at least 36 bytes long.
pub open spec fn uuid_of(url: Seq<char>) -> Option<Seq<char>> {
    match first_position(url, "chapter/"@) {
        Some(at) => {
            let id = chapter_part(url, at);
            if vstd::utf8::encode_utf8(id).len() >= MIN_UUID_LEN {
                Some(id)
            } else {
                None
            }
        },
        None => None,
    }
}

/// The identifier of the chapter that a URL names.
pub fn extract_uuid_from_url(url: &str) -> (uuid: Option<String>)
    ensures
        uuid is Some <==> uuid_of(url@) is Some,
        uuid matches Some(id) ==> id@ == uuid_of(url@).unwrap(),
{
    let chars = chars_of(url);
    let marker = chars_of("chapter/");
    proof {
        reveal_strlit("chapter/");
    }
    match find(&chars, &marker) {
        Some(at) => {
            let end = chars.len();
            assert(crate::text::occurs_at(chars@, marker@, at as int));
            let from = at + marker.len();
            let ghost rest = chars@.subrange(from as int, chars@.len() as int);
            let id = match find_char(&chars, from, end, '/') {
                Some(i) => {
                    assert(rest.subrange(0, i as int) =~= chars@.subrange(
                        from as int,
                        from + i,
                    ));
                    string_of_range(&chars, from, from + i)
                },
                None => string_of_range(&chars, from, end),
            };
            assert(id@ == chapter_part(url@, at as int));
            if id.as_str().as_bytes().len() >= MIN_UUID_LEN {
                Some(id)
            } else {
                None
            }
        },
        None => None,
    }
}

/// A character that may stand in the name of a folder: a letter, a number, an
/// underscore, a hyphen or a space.
pub open spec fn is_folder_char(c: char) -> bool {
    is_alphanumeric(c) || c == '_' || c == '-' || c == ' '
}

/// A name with an underscore in the place of every character that may not
/// stand in the name of a folder.
pub open spec fn safe_name(name: Seq<char>) -> Seq<char> {
    Seq::new(
        name.len(),
        |i: int|
            if is_folder_char(name[i]) {
                name[i]
            } else {
                '_'
            },
    )
}

/// Makes a name fit for a folder.
pub fn safe_folder_name(name: &str) -> (safe: String)
    ensures
        safe@ == safe_name(name@),
{
    let chars = chars_of(name);
    let mut safe = String::new();
    let mut i: usize = 0;
    while i < chars.len()
        invariant
            i <= chars.len(),
            chars@ == name@,
            safe@ == safe_name(name@).take(i as int),
        decreases chars.len() - i,
    {
        let c = chars[i];
        let ghost before = safe@;
        if c.is_alphanumeric() || c == '_' || c == '-' || c == ' ' {
            safe.push(c);
        } else {
            safe.push('_');
        }
        assert(safe@ =~= safe_name(name@).take(i + 1));
        i += 1;
    }
    assert(safe_name(name@).take(chars@.len() as int) =~= safe_name(name@));
    safe
}

/// The folder of a chapter: in the target folder, below the folder of the
/// series where one is named, the folder of the chapter.
pub open spec fn chapter_folder(
    target_dir: Seq<char>,
    series: Option<Seq<char>>,
    folder: Seq<char>,
) -> Seq<char> {
    let base = match series {
        Some(s) => if trimmed(s).len() > 0 {
            path_join(target_dir, safe_name(s))
        } else {
            target_dir
        },
        None => target_dir,
    };
    path_join(base, safe_name(folder))
}

/// The folder that takes the pages of a chapter.
pub fn download_path(target_dir: &str, series_name: Option<&str>, folder_name: &str) -> (path:
    String)
    ensures
        path@ == chapter_folder(
            target_dir@,
            match series_name {
                Some(s) => Some(s@),
                None => None,
            },
            folder_name@,
        ),
{
    let base = match series_name {
        Some(series) => if trim(series).as_str().unicode_len() > 0 {
            join(target_dir, safe_folder_name(series).as_str())
        } else {
            target_dir.to_owned()
        },
        None => target_dir.to_owned(),
    };
    join(base.as_str(), safe_folder_name(folder_name).as_str())
}

/// The address that says where the pages of a chapter are served.
pub fn server_url(chapter_id: &str) -> (url: String)
    ensures
        url@ == "https://api.mangadex.org/at-home/server/"@ + chapter_id@
            + "?forcePort443=false"@,
{
    let mut url = "https://api.mangadex.org/at-home/server/".to_owned();
    url.append(chapter_id);
    url.append("?forcePort443=false");
    url
}

/// The pages of a chapter as the service lists them.
pub struct ChapterData {
    pub hash: String,
    pub data: Vec<String>,
    pub data_saver: Vec<String>,
}

/// The answer of the service to the question where a chapter is served.
pub struct ServerResponse {
    pub result: Option<String>,
    pub base_url: Option<String>,
    pub chapter: Option<ChapterData>,
}

/// Where the pages of a chapter are, and what they are called.
pub struct ChapterPlan {
    /// The address below which the pages lie.
    pub base: String,
    /// The file names of the pages.
    pub pages: Vec<String>,
}

/// The part of the address that names the quality of the pages.
pub open spec fn quality_segment(use_data_saver: bool) -> Seq<char> {
    if use_data_saver {
        "data-saver"@
    } else {
        "data"@
    }
}

/// Whether the answer of the service says `ok`.
pub open spec fn says_ok(response: ServerResponse) -> bool {
    response.result matches Some(r) && r@ == "ok"@
}

/// Why an answer of the service cannot be used.
pub open spec fn answer_fault(response: ServerResponse) -> Option<Seq<char>> {
    if !says_ok(response) {
        Some("MangaDex API returned an error or invalid response"@)
    } else if response.base_url is None {
        Some("Missing baseUrl"@)
    } else if response.chapter is None {
        Some("Missing chapter data"@)
    } else {
        None
    }
}

/// Reads the answer of the service. It must say `ok` and name a base address
/// and the chapter; the pages are those of the quality asked for.
pub fn plan_chapter(response: ServerResponse, use_data_saver: bool) -> (plan: Result<
    ChapterPlan,
    String,
>)
    ensures
        plan is Ok <==> answer_fault(response) is None,
        plan matches Err(message) ==> Some(message@) == answer_fault(response),
        plan matches Ok(p) ==> p.base@ == response.base_url.unwrap()@ + "/"@ + quality_segment(
            use_data_saver,
        ) + "/"@ + response.chapter.unwrap().hash@ && p.pages == (if use_data_saver {
            response.chapter.unwrap().data_saver
        } else {
            response.chapter.unwrap().data
        }),
{
    let ServerResponse { result, base_url, chapter } = response;
    let ok = match &result {
        Some(r) => same_text(r.as_str(), "ok"),
        None => false,
    };
    if !ok {
        return Err("MangaDex API returned an error or invalid response".to_owned());
    }
    let base_url = match base_url {
        Some(b) => b,
        None => {
            return Err("Missing baseUrl".to_owned());
        },
    };
    let chapter = match chapter {
        Some(c) => c,
        None => {
            return Err("Missing chapter data".to_owned());
        },
    };
    let ChapterData { hash, data, data_saver } = chapter;
    let mut base = base_url;
    base.append("/");
    if use_data_saver {
        base.append("data-saver");
    } else {
        base.append("data");
    }
    base.append("/");
    base.append(hash.as_str());
    Ok(ChapterPlan { base, pages: if use_data_saver {
        data_saver
    } else {
        data
    } })
}

/// The address of a page.
pub fn page_address(base: &str, file_name: &str) -> (url: String)
    ensures
        url@ == base@ + "/"@ + file_name@,
{
    let mut url = base.to_owned();
    url.append("/");
    url.append(file_name);
    url
}

/// The message for a page that could not be fetched.
pub fn page_failed_message(file_name: &str, error: &str) -> (message: String)
    ensures
        message@ == "Failed to download "@ + file_name@ + ": "@ + error@,
{
    let mut message = "Failed to download ".to_owned();
    message.append(file_name);
    message.append(": ");
    message.append(error);
    message
}

/// The message for a chapter whose pages were all fetched.
pub fn chapter_done_message(pages: usize, download_path: &str) -> (message: String)
    ensures
        message@ == "Successfully downloaded "@ + decimal_text(pages as nat) + " images to "@
            + download_path@,
{
    let mut message = "Successfully downloaded ".to_owned();
    push_decimal(&mut message, pages as u64);
    message.append(" images to ");
    message.append(download_path);
    message
}

} // verus!
