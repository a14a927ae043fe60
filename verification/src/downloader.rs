//! Fetching pictures from the web: which site a URL belongs to, where its
//! pictures are, and what the files are called.

use crate::codec::{base64_decoded, decode_base64, decode_error_text};
use crate::file_ops::{name_rule, sort_names};
use crate::sorting::sorted_by;
use crate::text::{
    chars_of, contains_text, decimal_text, ends_with, find_char, first_index, last_index,
    padded_decimal_text, push_decimal, push_padded_decimal, rfind_char, same_text, str_contains,
    string_of_range, texts,
};
use vstd::prelude::*;
use vstd::string::StringExecFns;

verus! {

/// What `Regex::captures_iter` finds of a pattern in a text: for each match the
/// text of the first group, where the group took part; `None` where the
/// pattern is no regular expression.
pub uninterp spec fn regex_groups(pattern: Seq<char>, text: Seq<char>) -> Option<
    Seq<Option<Seq<char>>>,
>;

/// What `sanitize_filename::sanitize` makes of a name.
pub uninterp spec fn sanitized_name(name: Seq<char>) -> Seq<char>;

/// The URL that `Url::join` makes of a link found on the page at `base`;
/// `None` where either is no URL.
pub uninterp spec fn joined_url(base: Seq<char>, link: Seq<char>) -> Option<Seq<char>>;

/// The last segment of the path of a URL, as `Url::path_segments` gives it.
pub uninterp spec fn url_file_name(url: Seq<char>) -> Option<Seq<char>>;

/// Calls `Regex::new` and `Regex::captures_iter`, and `Captures::get` for the
/// first group of every match. The result is a function of pattern and text.
#[verifier::external_body]
fn group_matches(pattern: &str, text: &str) -> (found: Option<Vec<Option<String>>>)
    ensures
        found is Some <==> regex_groups(pattern@, text@) is Some,
        found matches Some(list) ==> list@.len() == regex_groups(pattern@, text@).unwrap().len()
            && forall|i: int|
            0 <= i < list@.len() ==> (match #[trigger] list@[i] {
                Some(g) => Some(g@),
                None => None,
            }) == regex_groups(pattern@, text@).unwrap()[i],
{
    let expression = match regex::Regex::new(pattern) {
        Ok(expression) => expression,
        Err(_) => return None,
    };
    let mut found = Vec::new();
    for captures in expression.captures_iter(text) {
        found.push(match captures.get(1) {
            Some(group) => Some(group.as_str().to_owned()),
            None => None,
        });
    }
    Some(found)
}

/// Calls `sanitize_filename::sanitize`. The result is a function of the name.
#[verifier::external_body]
fn sanitize(name: &str) -> (clean: String)
    ensures
        clean@ == sanitized_name(name@),
{
    sanitize_filename::sanitize(name)
}

/// Calls `Url::parse` on the base and `Url::join` with the link. The result is
/// a function of the two texts.
#[verifier::external_body]
fn join_url(base: &str, link: &str) -> (url: Option<String>)
    ensures
        url is Some <==> joined_url(base@, link@) is Some,
        url matches Some(u) ==> u@ == joined_url(base@, link@).unwrap(),
{
    match reqwest::Url::parse(base) {
        Ok(base) => match base.join(link) {
            Ok(url) => Some(String::from(url)),
            Err(_) => None,
        },
        Err(_) => None,
    }
}

/// Calls `Url::parse` and `Url::path_segments`, and takes the last segment.
/// The result is a function of the text.
#[verifier::external_body]
fn last_url_segment(url: &str) -> (name: Option<String>)
    ensures
        name is Some <==> url_file_name(url@) is Some,
        name matches Some(n) ==> n@ == url_file_name(url@).unwrap(),
{
    match reqwest::Url::parse(url) {
        Ok(url) => match url.path_segments() {
            Some(segments) => match segments.last() {
                Some(segment) => Some(segment.to_owned()),
                None => None,
            },
            None => None,
        },
        Err(_) => None,
    }
}

/// The browser that requests claim to come from where none is named.
pub const DEFAULT_USER_AGENT: &'static str =
    "Mozilla/5.0 (Windows NT 10.0; Win64; x64) AppleWebKit/537.36 (KHTML, like Gecko) Chrome/121.0.0.0 Safari/537.36";

/// The answer that tells the caller to fetch the page in a browser view instead.
pub const FALLBACK_REQUIRED: &'static str = "FALLBACK_REQUIRED";

/// The pattern of a link to a picture in a page.
pub const IMAGE_LINK_PATTERN: &'static str =
    "(?:href|src)=[\"']([^\"']+\\.(?:jpg|jpeg|png|webp))[\"']";

/// The pattern of the gallery number in an nHentai URL.
pub const GALLERY_PATTERN: &'static str = "g/(\\d+)";

/// The pattern of the artwork number in a Pixiv URL.
pub const ARTWORK_PATTERN: &'static str = "artworks/(\\d+)";

/// The page that Pixiv wants to be named as the referrer.
pub const PIXIV_REFERER: &'static str = "https://www.pixiv.net/";

/// The sites that are fetched in their own way.
#[derive(Clone, Copy, Debug, PartialEq, Eq, Structural)]
pub enum Site {
    NHentai,
    Pixiv,
    /// Any other page: its links to pictures are followed.
    Generic,
}

/// The site of a URL, by what its text holds.
pub open spec fn site_for(url: Seq<char>) -> Site {
    if contains_text(url, "nhentai"@) {
        Site::NHentai
    } else if contains_text(url, "pixiv.net"@) {
        Site::Pixiv
    } else {
        Site::Generic
    }
}

/// The site of a URL.
pub fn site_of(url: &str) -> (site: Site)
    ensures
        site == site_for(url@),
{
    if str_contains(url, "nhentai") {
        Site::NHentai
    } else if str_contains(url, "pixiv.net") {
        Site::Pixiv
    } else {
        Site::Generic
    }
}

/// The user agent of a download: the one asked for, else the usual one.
pub fn user_agent_or_default(user_agent: Option<String>) -> (agent: String)
    ensures
        agent@ == match user_agent {
            Some(a) => a@,
            None => DEFAULT_USER_AGENT@,
        },
{
    match user_agent {
        Some(a) => a,
        None => DEFAULT_USER_AGENT.to_owned(),
    }
}

/// An error tells of a block by the site when it names the status 403 or 503,
/// Cloudflare, or a required login.
pub open spec fn is_blocked(error: Seq<char>) -> bool {
    contains_text(error, "403"@) || contains_text(error, "503"@) || contains_text(
        error,
        "Cloudflare"@,
    ) || contains_text(error, "Login Required"@)
}

/// What a download reports: its own result, but for an error that tells of a
/// block by the site the answer that asks for the fallback.
pub fn wrapper_download_url(result: Result<String, String>) -> (answer: Result<String, String>)
    ensures
        match result {
            Ok(message) => answer is Ok && answer->Ok_0@ == message@,
            Err(error) => if is_blocked(error@) {
                answer is Ok && answer->Ok_0@ == FALLBACK_REQUIRED@
            } else {
                answer is Err && answer->Err_0@ == error@
            },
        },
{
    match result {
        Ok(message) => Ok(message),
        Err(error) => {
            let e = error.as_str();
            if str_contains(e, "403") || str_contains(e, "503") || str_contains(e, "Cloudflare")
                || str_contains(e, "Login Required") {
                Ok(FALLBACK_REQUIRED.to_owned())
            } else {
                Err(error)
            }
        },
    }
}

/// What follows the first comma of a data URL, or the whole text where there is none.
pub open spec fn data_part(data: Seq<char>) -> Seq<char> {
    match first_index(data, ',') {
        Some(i) => data.subrange(i + 1, data.len() as int),
        None => data,
    }
}

/// The picture that a data URL holds, or the message that it holds none.
pub fn save_base64_image(base64_data: &str) -> (picture: Result<Vec<u8>, String>)
    ensures
        picture is Ok <==> base64_decoded(data_part(base64_data@)) is Some,
        picture matches Ok(bytes) ==> bytes@ == base64_decoded(data_part(base64_data@)).unwrap(),
        picture matches Err(message) ==> "Base64 decode failed: "@.is_prefix_of(message@),
{
    let chars = chars_of(base64_data);
    let part = match find_char(&chars, 0, chars.len(), ',') {
        Some(i) => {
            assert(chars@.subrange(0, chars@.len() as int) =~= chars@);
            string_of_range(&chars, i + 1, chars.len())
        },
        None => {
            assert(chars@.subrange(0, chars@.len() as int) =~= chars@);
            base64_data.to_owned()
        },
    };
    match decode_base64(part.as_str()) {
        Ok(bytes) => Ok(bytes),
        Err(error) => {
            let mut message = "Base64 decode failed: ".to_owned();
            let ghost head = message@;
            let text = decode_error_text(&error);
            message.append(text.as_str());
            assert(message@.subrange(0, head.len() as int) =~= head);
            Err(message)
        },
    }
}

/// The message for a picture written from a data URL.
pub fn saved_fallback_message(target_path: &str) -> (message: String)
    ensures
        message@ == "Saved fallback image to "@ + target_path@,
{
    let mut message = "Saved fallback image to ".to_owned();
    message.append(target_path);
    message
}

/// A URL names a picture itself when it ends in one of the four extensions.
pub open spec fn is_image_url(url: Seq<char>) -> bool {
    ".jpg"@.is_suffix_of(url) || ".jpeg"@.is_suffix_of(url) || ".png"@.is_suffix_of(url)
        || ".webp"@.is_suffix_of(url)
}

/// Whether a URL names a picture itself.
pub fn names_image(url: &str) -> (direct: bool)
    ensures
        direct == is_image_url(url@),
{
    let chars = chars_of(url);
    ends_with(&chars, &chars_of(".jpg")) || ends_with(&chars, &chars_of(".jpeg")) || ends_with(
        &chars,
        &chars_of(".png"),
    ) || ends_with(&chars, &chars_of(".webp"))
}

/// What follows the last slash of a text, or the whole text where there is none.
pub open spec fn after_last_slash(text: Seq<char>) -> Seq<char> {
    match last_index(text, '/') {
        Some(i) => text.subrange(i + 1, text.len() as int),
        None => text,
    }
}

/// The name of the file that a URL is saved under: what follows its last slash.
pub fn file_name_of_url(url: &str) -> (name: String)
    ensures
        name@ == after_last_slash(url@),
{
    let chars = chars_of(url);
    match rfind_char(&chars, '/') {
        Some(i) => string_of_range(&chars, i + 1, chars.len()),
        None => url.to_owned(),
    }
}

/// A list without the items that repeat the item in front of them.
pub open spec fn without_repeats(list: Seq<Seq<char>>) -> Seq<Seq<char>>
    decreases list.len(),
{
    if list.len() == 0 {
        list
    } else if list.len() >= 2 && list[list.len() - 2] == list.last() {
        without_repeats(list.drop_last())
    } else {
        without_repeats(list.drop_last()).push(list.last())
    }
}

/// Drops the items that repeat the item in front of them.
pub fn drop_repeats(list: Vec<String>) -> (kept: Vec<String>)
    ensures
        texts(kept@) == without_repeats(texts(list@)),
{
    let ghost all = texts(list@);
    let mut kept: Vec<String> = Vec::new();
    let mut i: usize = 0;
    assert(all.take(0) =~= Seq::<Seq<char>>::empty());
    assert(texts(kept@) =~= Seq::<Seq<char>>::empty());
    while i < list.len()
        invariant
            i <= list.len(),
            all == texts(list@),
            texts(kept@) == without_repeats(all.take(i as int)),
        decreases list.len() - i,
    {
        let ghost before = texts(kept@);
        proof {
            let next = all.take(i + 1);
            assert(next.drop_last() =~= all.take(i as int));
            assert(next.last() == list@[i as int]@);
            if i > 0 {
                assert(next[next.len() - 2] == list@[i - 1]@);
            }
        }
        if i > 0 && same_text(list[i - 1].as_str(), list[i].as_str()) {
        } else {
            kept.push(list[i].clone());
            assert(texts(kept@) =~= before.push(list@[i as int]@));
        }
        i += 1;
    }
    assert(all.take(list@.len() as int) =~= all);
    kept
}

/// The links of a page, resolved: each link that gives a URL against the
/// page's own, in the order of the page.
pub open spec fn resolved_links(base: Seq<char>, groups: Seq<Option<Seq<char>>>) -> Seq<Seq<char>>
    decreases groups.len(),
{
    if groups.len() == 0 {
        Seq::empty()
    } else {
        let front = resolved_links(base, groups.drop_last());
        match groups.last() {
            Some(link) => match joined_url(base, link) {
                Some(url) => front.push(url),
                None => front,
            },
            None => front,
        }
    }
}

/// The pictures that a page links to: the links resolved, put in order, each once.
pub open spec fn page_images(base: Seq<char>, groups: Seq<Option<Seq<char>>>) -> Seq<Seq<char>> {
    without_repeats(sorted_by(resolved_links(base, groups), name_rule()))
}

/// The pictures of a page from the links found in it.
pub fn links_to_images(base_url: &str, links: &Vec<Option<String>>) -> (images: Vec<String>)
    ensures
        texts(images@) == page_images(
            base_url@,
            Seq::new(
                links@.len(),
                |i: int|
                    match links@[i] {
                        Some(l) => Some(l@),
                        None => None,
                    },
            ),
        ),
{
    let ghost groups = Seq::new(
        links@.len(),
        |i: int|
            match links@[i] {
                Some(l) => Some(l@),
                None => None,
            },
    );
    let mut resolved: Vec<String> = Vec::new();
    let mut i: usize = 0;
    assert(groups.take(0) =~= Seq::<Option<Seq<char>>>::empty());
    assert(texts(resolved@) =~= Seq::<Seq<char>>::empty());
    while i < links.len()
        invariant
            i <= links.len(),
            groups.len() == links@.len(),
            forall|k: int|
                0 <= k < links@.len() ==> groups[k] == (match #[trigger] links@[k] {
                    Some(l) => Some(l@),
                    None => None,
                }),
            texts(resolved@) == resolved_links(base_url@, groups.take(i as int)),
        decreases links.len() - i,
    {
        let ghost before = texts(resolved@);
        proof {
            assert(groups.take(i + 1).drop_last() =~= groups.take(i as int));
            assert(groups.take(i + 1).last() == groups[i as int]);
        }
        match &links[i] {
            Some(link) => match join_url(base_url, link.as_str()) {
                Some(url) => {
                    resolved.push(url);
                    assert(texts(resolved@) =~= before.push(url@));
                },
                None => {},
            },
            None => {},
        }
        i += 1;
    }
    assert(groups.take(links@.len() as int) =~= groups);
    drop_repeats(sort_names(resolved))
}

/// The pictures that the page at `base_url` links to, or the message that it
/// links to none.
pub fn download_generic(base_url: &str, html: &str) -> (images: Result<Vec<String>, String>)
    ensures
        match regex_groups(IMAGE_LINK_PATTERN@, html@) {
            Some(groups) => if page_images(base_url@, groups).len() == 0 {
                images is Err && images->Err_0@
                    == "No images found on this page via generic scraper."@
            } else {
                images is Ok && texts(images->Ok_0@) == page_images(base_url@, groups)
            },
            None => images is Err,
        },
{
    match group_matches(IMAGE_LINK_PATTERN, html) {
        Some(links) => {
            assert(Seq::new(
                links@.len(),
                |i: int|
                    match links@[i] {
                        Some(l) => Some(l@),
                        None => None,
                    },
            ) =~= regex_groups(IMAGE_LINK_PATTERN@, html@).unwrap());
            let images = links_to_images(base_url, &links);
            if images.len() == 0 {
                Err("No images found on this page via generic scraper.".to_owned())
            } else {
                Ok(images)
            }
        },
        None => Err("Invalid link pattern".to_owned()),
    }
}

/// The folder for the pictures of a page: the name of its host made fit for a
/// file name, or that of `generic_download` where the URL has no host.
pub fn generic_folder(host: Option<&str>) -> (folder: String)
    ensures
        folder@ == sanitized_name(
            match host {
                Some(h) => h@,
                None => "generic_download"@,
            },
        ),
{
    match host {
        Some(h) => sanitize(h),
        None => sanitize("generic_download"),
    }
}

/// The name of the file for a picture of a page: the last segment of its URL's
/// path, or `image.png` where there is none.
pub fn generic_file_name(image_url: &str) -> (name: String)
    ensures
        name@ == match url_file_name(image_url@) {
            Some(n) => n,
            None => "image.png"@,
        },
{
    match last_url_segment(image_url) {
        Some(n) => n,
        None => "image.png".to_owned(),
    }
}

/// The number that the first match of a pattern holds in its group.
pub open spec fn first_group(groups: Option<Seq<Option<Seq<char>>>>) -> Option<Seq<char>> {
    match groups {
        Some(list) => if list.len() > 0 {
            list[0]
        } else {
            None
        },
        None => None,
    }
}

/// Takes the group of the first match.
pub fn take_first_group(found: Option<Vec<Option<String>>>) -> (group: Option<String>)
    ensures
        match group {
            Some(g) => found matches Some(list) && list@.len() > 0 && list@[0] == Some(g),
            None => !(found matches Some(list) && list@.len() > 0 && list@[0] is Some),
        },
{
    match found {
        Some(list) => {
            let mut list = crate::lists::reversed(list);
            let ghost turned = list@;
            match list.pop() {
                Some(first) => {
                    assert(turned.reverse()[0] == first);
                    first
                },
                None => None,
            }
        },
        None => None,
    }
}

/// The number of the gallery that an nHentai URL names.
pub fn gallery_id(url: &str) -> (id: Result<String, String>)
    ensures
        match first_group(regex_groups(GALLERY_PATTERN@, url@)) {
            Some(number) => id is Ok && id->Ok_0@ == number,
            None => id is Err && id->Err_0@ == "Invalid nHentai URL"@,
        },
{
    match take_first_group(group_matches(GALLERY_PATTERN, url)) {
        Some(number) => Ok(number),
        None => Err("Invalid nHentai URL".to_owned()),
    }
}

/// The number of the artwork that a Pixiv URL names.
pub fn artwork_id(url: &str) -> (id: Result<String, String>)
    ensures
        match first_group(regex_groups(ARTWORK_PATTERN@, url@)) {
            Some(number) => id is Ok && id->Ok_0@ == number,
            None => id is Err && id->Err_0@ == "Invalid Pixiv URL"@,
        },
{
    match take_first_group(group_matches(ARTWORK_PATTERN, url)) {
        Some(number) => Ok(number),
        None => Err("Invalid Pixiv URL".to_owned()),
    }
}

/// The address that describes a gallery.
pub fn gallery_api_url(id: &str) -> (url: String)
    ensures
        url@ == "https://nhentai.net/api/gallery/"@ + id@,
{
    let mut url = "https://nhentai.net/api/gallery/".to_owned();
    url.append(id);
    url
}

/// The address that lists the pages of an artwork.
pub fn artwork_api_url(id: &str) -> (url: String)
    ensures
        url@ == "https://www.pixiv.net/ajax/illust/"@ + id@ + "/pages"@,
{
    let mut url = "https://www.pixiv.net/ajax/illust/".to_owned();
    url.append(id);
    url.append("/pages");
    url
}

/// The folder for the pages of an artwork.
pub fn artwork_folder(id: &str) -> (folder: String)
    ensures
        folder@ == "pixiv_"@ + id@,
{
    let mut folder = "pixiv_".to_owned();
    folder.append(id);
    folder
}

/// The folder for the pages of a gallery: its title made fit for a file name.
pub fn gallery_folder(title: &str) -> (folder: String)
    ensures
        folder@ == sanitized_name(title@),
{
    sanitize(title)
}

/// The extension of a page by the letter of its type: `p` for PNG, `w` for
/// WebP, anything else for JPEG.
pub open spec fn page_extension_of(kind: Seq<char>) -> Seq<char> {
    if kind == "p"@ {
        "png"@
    } else if kind == "w"@ {
        "webp"@
    } else {
        "jpg"@
    }
}

/// The extension of a page by the letter of its type.
pub fn page_extension(kind: &str) -> (extension: &'static str)
    ensures
        extension@ == page_extension_of(kind@),
{
    if same_text(kind, "p") {
        "png"
    } else if same_text(kind, "w") {
        "webp"
    } else {
        "jpg"
    }
}

/// The address of a page of a gallery; pages are counted from one.
pub fn page_url(media_id: &str, page: usize, extension: &str) -> (url: String)
    ensures
        url@ == "https://i.nhentai.net/galleries/"@ + media_id@ + "/"@ + decimal_text(page as nat)
            + "."@ + extension@,
{
    let mut url = "https://i.nhentai.net/galleries/".to_owned();
    url.append(media_id);
    url.append("/");
    push_decimal(&mut url, page as u64);
    url.append(".");
    url.append(extension);
    url
}

/// The name of the file of a page: its number in three digits, and the extension.
pub fn page_file_name(page: usize, extension: &str) -> (name: String)
    ensures
        name@ == padded_decimal_text(page as nat, 3) + "."@ + extension@,
{
    let mut name = String::new();
    push_padded_decimal(&mut name, page as u64, 3);
    assert(name@ =~= padded_decimal_text(page as nat, 3));
    name.append(".");
    name.append(extension);
    name
}

} // verus!
