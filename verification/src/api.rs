//! The client side of the transformation service: where requests go, which
//! headers they carry, when a response counts as a success, and how often a
//! failed request is sent again.

use crate::text::{chars_of, push_decimal, same_text, trim, trimmed, decimal_text};
use vstd::prelude::*;
use vstd::string::StringExecFns;

verus! {

/// The addresses of the service.
#[derive(Clone)]
pub struct ApiEndpoints {
    pub storage: String,
    pub storage_headers: Option<String>,
    pub ocr: String,
    pub ocr_headers: Option<String>,
    pub translate: String,
    pub save_debug_json: bool,
}

impl Default for ApiEndpoints {
    /// The service's own addresses, with no extra headers.
    fn default() -> (endpoints: Self)
        ensures
            endpoints.storage@ == "https://api.toriitranslate.com/api/storage"@,
            endpoints.storage_headers is None,
            endpoints.ocr@ == "https://api.toriitranslate.com/api/ocr"@,
            endpoints.ocr_headers is None,
            endpoints.translate@ == "https://api.toriitranslate.com/api/upload"@,
            !endpoints.save_debug_json,
    {
        ApiEndpoints {
            storage: "https://api.toriitranslate.com/api/storage".to_owned(),
            storage_headers: None,
            ocr: "https://api.toriitranslate.com/api/ocr".to_owned(),
            ocr_headers: None,
            translate: "https://api.toriitranslate.com/api/upload".to_owned(),
            save_debug_json: false,
        }
    }
}

/// A request header.
pub struct Header {
    pub name: String,
    pub value: String,
}

/// A character that may stand in a header value: printable ASCII.
pub open spec fn is_header_safe(c: char) -> bool {
    0x20 <= c as u32 && (c as u32) < 0x7f
}

/// `value` without the characters that may not stand in a header value.
pub open spec fn safe_text(value: Seq<char>) -> Seq<char> {
    value.filter(|c: char| is_header_safe(c))
}

/// Drops from `value` every character that is not printable ASCII.
pub fn safe_header(value: &str) -> (safe: String)
    ensures
        safe@ == safe_text(value@),
{
    let chars = chars_of(value);
    let ghost keep = |c: char| is_header_safe(c);
    let mut safe = String::new();
    let mut i: usize = 0;
    assert(chars@.take(0).filter(keep) =~= Seq::<char>::empty()) by {
        reveal_with_fuel(Seq::filter, 1);
    }
    while i < chars.len()
        invariant
            i <= chars.len(),
            keep == |c: char| is_header_safe(c),
            safe@ == chars@.take(i as int).filter(keep),
        decreases chars.len() - i,
    {
        let c = chars[i];
        proof {
            let next = chars@.take(i + 1);
            assert(next.drop_last() =~= chars@.take(i as int));
            assert(next.last() == c);
            reveal_with_fuel(Seq::filter, 2);
        }
        if 0x20 <= c as u32 && (c as u32) < 0x7f {
            safe.push(c);
        }
        i += 1;
    }
    assert(chars@.take(chars@.len() as int) =~= chars@);
    safe
}

/// The word for a flag in a header.
pub open spec fn flag_text(flag: bool) -> Seq<char> {
    if flag {
        "true"@
    } else {
        "false"@
    }
}

/// The headers of a transformation request, in the order in which they are set.
pub open spec fn translate_header_texts(
    api_key: Seq<char>,
    model: Seq<char>,
    target_lang: Seq<char>,
    font: Seq<char>,
    text_align: Seq<char>,
    stroke_disabled: bool,
    inpaint_only: bool,
    min_font_size: u32,
) -> Seq<(Seq<char>, Seq<char>)> {
    seq![
        ("Authorization"@, "Bearer "@ + api_key),
        ("target_lang"@, safe_text(target_lang)),
        ("translator"@, safe_text(model)),
        ("font"@, safe_text(font)),
        ("text_align"@, safe_text(text_align)),
        ("stroke_disabled"@, flag_text(stroke_disabled)),
        ("inpaint_only"@, flag_text(inpaint_only)),
        ("min_font_size"@, decimal_text(min_font_size as nat)),
    ]
}

/// The names and values of a list of headers.
pub open spec fn header_texts(headers: Seq<Header>) -> Seq<(Seq<char>, Seq<char>)> {
    Seq::new(headers.len(), |i: int| (headers[i].name@, headers[i].value@))
}

/// The word for a flag in a header.
fn flag_word(flag: bool) -> (word: String)
    ensures
        word@ == flag_text(flag),
{
    if flag {
        "true".to_owned()
    } else {
        "false".to_owned()
    }
}

/// The header of this name and value.
fn header(name: &str, value: String) -> (h: Header)
    ensures
        h.name@ == name@,
        h.value@ == value@,
{
    Header { name: name.to_owned(), value }
}

/// What the client needs to know to talk to the service.
pub struct ApiClient {
    api_key: String,
    endpoints: ApiEndpoints,
}

impl ApiClient {
    /// The key that requests are signed with.
    pub closed spec fn key(&self) -> Seq<char> {
        self.api_key@
    }

    /// The addresses that requests go to.
    pub closed spec fn addresses(&self) -> ApiEndpoints {
        self.endpoints
    }

    /// A client for the service's own addresses.
    pub fn new(api_key: String) -> (client: Self)
        ensures
            client.key() == trimmed(api_key@),
            client.addresses().translate@ == "https://api.toriitranslate.com/api/upload"@,
            client.addresses().storage@ == "https://api.toriitranslate.com/api/storage"@,
            client.addresses().ocr@ == "https://api.toriitranslate.com/api/ocr"@,
            client.addresses().storage_headers is None,
            client.addresses().ocr_headers is None,
            !client.addresses().save_debug_json,
    {
        Self::new_with_endpoints(api_key, ApiEndpoints::default())
    }

    /// A client for the given addresses. White space round the key is dropped.
    pub fn new_with_endpoints(api_key: String, endpoints: ApiEndpoints) -> (client: Self)
        ensures
            client.key() == trimmed(api_key@),
            client.addresses() == endpoints,
    {
        ApiClient { api_key: trim(api_key.as_str()), endpoints }
    }

    /// The addresses that requests go to.
    pub fn endpoints(&self) -> (endpoints: &ApiEndpoints)
        ensures
            *endpoints == self.addresses(),
    {
        &self.endpoints
    }

    /// The value of the `Authorization` header.
    pub fn authorization(&self) -> (value: String)
        ensures
            value@ == "Bearer "@ + self.key(),
    {
        let mut value = "Bearer ".to_owned();
        value.append(self.api_key.as_str());
        value
    }

    /// The headers of a request to the storage address: the key, the extra
    /// headers of the setting, and the addresses asked about.
    pub fn storage_headers(&self, storage_urls: &str) -> (headers: Vec<Header>)
        ensures
            header_texts(headers@) == seq![("Authorization"@, "Bearer "@ + self.key())]
                + custom_header_texts(
                match self.addresses().storage_headers {
                    Some(t) => Some(t@),
                    None => None,
                },
            ) + seq![("storage_urls"@, storage_urls@)],
    {
        let mut headers: Vec<Header> = Vec::new();
        headers.push(header("Authorization", self.authorization()));
        let ghost first = header_texts(headers@);
        assert(first =~= seq![("Authorization"@, "Bearer "@ + self.key())]);
        let mut extra = custom_headers(&self.endpoints.storage_headers);
        let ghost middle = header_texts(extra@);
        headers.append(&mut extra);
        assert(header_texts(headers@) =~= first + middle);
        headers.push(header("storage_urls", storage_urls.to_owned()));
        assert(header_texts(headers@) =~= first + middle + seq![("storage_urls"@, storage_urls@)]);
        headers
    }

    /// The headers of a request to the OCR address: the key and the extra
    /// headers of the setting.
    pub fn ocr_headers(&self) -> (headers: Vec<Header>)
        ensures
            header_texts(headers@) == seq![("Authorization"@, "Bearer "@ + self.key())]
                + custom_header_texts(
                match self.addresses().ocr_headers {
                    Some(t) => Some(t@),
                    None => None,
                },
            ),
    {
        let mut headers: Vec<Header> = Vec::new();
        headers.push(header("Authorization", self.authorization()));
        let ghost first = header_texts(headers@);
        assert(first =~= seq![("Authorization"@, "Bearer "@ + self.key())]);
        let mut extra = custom_headers(&self.endpoints.ocr_headers);
        let ghost middle = header_texts(extra@);
        headers.append(&mut extra);
        assert(header_texts(headers@) =~= first + middle);
        headers
    }

    /// The headers of a request to transform a file.
    pub fn translate_headers(
        &self,
        model: &str,
        target_lang: &str,
        font: &str,
        text_align: &str,
        stroke_disabled: bool,
        inpaint_only: bool,
        min_font_size: u32,
    ) -> (headers: Vec<Header>)
        ensures
            header_texts(headers@) == translate_header_texts(
                self.key(),
                model@,
                target_lang@,
                font@,
                text_align@,
                stroke_disabled,
                inpaint_only,
                min_font_size,
            ),
    {
        let mut size = String::new();
        push_decimal(&mut size, min_font_size as u64);
        assert(Seq::<char>::empty() + decimal_text(min_font_size as nat) =~= decimal_text(
            min_font_size as nat,
        ));
        let mut headers: Vec<Header> = Vec::new();
        headers.push(header("Authorization", self.authorization()));
        headers.push(header("target_lang", safe_header(target_lang)));
        headers.push(header("translator", safe_header(model)));
        headers.push(header("font", safe_header(font)));
        headers.push(header("text_align", safe_header(text_align)));
        headers.push(header("stroke_disabled", flag_word(stroke_disabled)));
        headers.push(header("inpaint_only", flag_word(inpaint_only)));
        headers.push(header("min_font_size", size));
        assert(header_texts(headers@) =~= translate_header_texts(
            self.key(),
            model@,
            target_lang@,
            font@,
            text_align@,
            stroke_disabled,
            inpaint_only,
            min_font_size,
        ));
        headers
    }
}

/// The members of the object that a JSON text holds, as `serde_json` reads them
/// and in the order in which it keeps them: each key with its value where
/// that is a string; `None` where the text is no JSON or no object.
pub uninterp spec fn json_object_strings(text: Seq<char>) -> Option<
    Seq<(Seq<char>, Option<Seq<char>>)>,
>;

/// Whether `HeaderName::from_str` takes a text for the name of a header.
pub uninterp spec fn is_header_name(name: Seq<char>) -> bool;

/// A character that may stand in the value of a header: a tab, or any
/// character from the space on but the delete character.
pub open spec fn is_value_char(c: char) -> bool {
    c as u32 == 9 || (c as u32 >= 32 && c as u32 != 127)
}

/// A text that can be the value of a header: each of its characters may stand there.
pub open spec fn is_header_value(value: Seq<char>) -> bool {
    forall|i: int| 0 <= i < value.len() ==> is_value_char(#[trigger] value[i])
}

/// Calls `serde_json::from_str` for a `Value` and walks the members of the
/// object it gives. The result is a function of the text alone.
#[verifier::external_body]
fn parse_object(text: &str) -> (members: Option<Vec<(String, Option<String>)>>)
    ensures
        members is Some <==> json_object_strings(text@) is Some,
        members matches Some(list) ==> member_texts(list@) == json_object_strings(text@).unwrap(),
{
    match serde_json::from_str::<serde_json::Value>(text) {
        Ok(serde_json::Value::Object(object)) => {
            let mut members = Vec::new();
            for (key, value) in object {
                members.push((key, match value {
                    serde_json::Value::String(text) => Some(text),
                    _ => None,
                }));
            }
            Some(members)
        },
        _ => None,
    }
}

/// Calls `HeaderName::from_str` and says whether it took the text.
#[verifier::external_body]
fn header_name_is_valid(name: &str) -> (valid: bool)
    ensures
        valid == is_header_name(name@),
{
    <reqwest::header::HeaderName as std::str::FromStr>::from_str(name).is_ok()
}

/// Whether a text can be the value of a header. This is the rule by which
/// `HeaderValue::from_str` takes a text.
pub fn header_value_is_valid(value: &str) -> (valid: bool)
    ensures
        valid == is_header_value(value@),
{
    let chars = chars_of(value);
    let mut i: usize = 0;
    while i < chars.len()
        invariant
            i <= chars.len(),
            chars@ == value@,
            forall|j: int| 0 <= j < i ==> is_value_char(#[trigger] value@[j]),
        decreases chars.len() - i,
    {
        let code = chars[i] as u32;
        if !(code == 9 || (code >= 32 && code != 127)) {
            assert(!is_value_char(value@[i as int]));
            return false;
        }
        i += 1;
    }
    true
}

/// The keys and values of a list of members.
pub open spec fn member_texts(members: Seq<(String, Option<String>)>) -> Seq<
    (Seq<char>, Option<Seq<char>>),
> {
    Seq::new(
        members.len(),
        |i: int|
            (
                members[i].0@,
                match members[i].1 {
                    Some(v) => Some(v@),
                    None => None,
                },
            ),
    )
}

/// A member makes a header when its value is a string and both its key and
/// its value can stand in a header.
pub open spec fn makes_header(member: (Seq<char>, Option<Seq<char>>)) -> bool {
    member.1 matches Some(v) && is_header_name(member.0) && is_header_value(v)
}

/// The headers that a list of members makes, in the order of the list.
pub open spec fn headers_of(members: Seq<(Seq<char>, Option<Seq<char>>)>) -> Seq<
    (Seq<char>, Seq<char>),
> {
    members.filter(|m: (Seq<char>, Option<Seq<char>>)| makes_header(m)).map_values(
        |m: (Seq<char>, Option<Seq<char>>)| (m.0, m.1.unwrap()),
    )
}

/// The extra headers that a setting asks for: none where there is no setting,
/// where it is blank, or where it is no JSON object; else those that the
/// members of the object make.
pub open spec fn custom_header_texts(setting: Option<Seq<char>>) -> Seq<(Seq<char>, Seq<char>)> {
    match setting {
        Some(text) => if trimmed(text).len() == 0 {
            Seq::empty()
        } else {
            match json_object_strings(text) {
                Some(members) => headers_of(members),
                None => Seq::empty(),
            }
        },
        None => Seq::empty(),
    }
}

/// The headers that the members of a JSON object make.
pub fn member_headers(members: Vec<(String, Option<String>)>) -> (headers: Vec<Header>)
    ensures
        header_texts(headers@) == headers_of(member_texts(members@)),
{
    let ghost all = member_texts(members@);
    let ghost wanted = |m: (Seq<char>, Option<Seq<char>>)| makes_header(m);
    let ghost made = |m: (Seq<char>, Option<Seq<char>>)| (m.0, m.1.unwrap());
    let total: usize = members.len();
    let mut rest = crate::lists::reversed(members);
    let mut headers: Vec<Header> = Vec::new();
    let mut done: usize = 0;
    assert(member_texts(rest@).reverse() =~= all);
    assert(all.take(0) =~= Seq::empty());
    assert(header_texts(headers@) =~= Seq::empty());
    while rest.len() > 0
        invariant
            wanted == |m: (Seq<char>, Option<Seq<char>>)| makes_header(m),
            made == |m: (Seq<char>, Option<Seq<char>>)| (m.0, m.1.unwrap()),
            all.len() == total,
            done + rest@.len() == total,
            all.take(done as int) + member_texts(rest@).reverse() == all,
            header_texts(headers@) == all.take(done as int).filter(wanted).map_values(made),
        decreases rest.len(),
    {
        let ghost rest_before = member_texts(rest@);
        let ghost headers_before = header_texts(headers@);
        let member = rest.pop().unwrap();
        let ghost m = rest_before.last();
        proof {
            assert(member_texts(rest@) =~= rest_before.drop_last());
            assert(m.0 == member.0@);
            assert(m.1 == match member.1 {
                Some(v) => Some(v@),
                None => None,
            });
            assert(rest_before.reverse() =~= seq![m] + member_texts(rest@).reverse());
            assert(all[done as int] == (all.take(done as int) + rest_before.reverse())[done as int]);
            let next = all.take(done + 1);
            assert(next.drop_last() =~= all.take(done as int));
            assert(next.last() == m);
            reveal_with_fuel(Seq::filter, 2);
            assert(next + member_texts(rest@).reverse() =~= all.take(done as int)
                + rest_before.reverse());
        }
        let (key, value) = member;
        match value {
            Some(v) => {
                if header_name_is_valid(key.as_str()) && header_value_is_valid(v.as_str()) {
                    let ghost kept = all.take(done as int).filter(wanted);
                    headers.push(Header { name: key, value: v });
                    assert(header_texts(headers@) =~= headers_before.push((m.0, m.1.unwrap())));
                    assert(kept.push(m).map_values(made) =~= kept.map_values(made).push(
                        (m.0, m.1.unwrap()),
                    ));
                }
            },
            None => {},
        }
        done += 1;
    }
    assert(all.take(total as int) =~= all);
    headers
}

/// The extra headers that a setting asks for.
pub fn custom_headers(setting: &Option<String>) -> (headers: Vec<Header>)
    ensures
        header_texts(headers@) == custom_header_texts(
            match setting {
                Some(t) => Some(t@),
                None => None,
            },
        ),
{
    match setting {
        Some(text) => {
            if trim(text.as_str()).as_str().unicode_len() == 0 {
                let none: Vec<Header> = Vec::new();
                assert(header_texts(none@) =~= Seq::empty());
                none
            } else {
                match parse_object(text.as_str()) {
                    Some(members) => member_headers(members),
                    None => {
                        let none: Vec<Header> = Vec::new();
                        assert(header_texts(none@) =~= Seq::empty());
                        none
                    },
                }
            }
        },
        None => {
            let none: Vec<Header> = Vec::new();
            assert(header_texts(none@) =~= Seq::empty());
            none
        },
    }
}

/// The message for an answer of the storage or the OCR address that is no success.
pub fn status_error(service: &str, status: &str) -> (message: String)
    ensures
        message@ == service@ + " API Error: "@ + status@,
{
    let mut message = service.to_owned();
    message.append(" API Error: ");
    message.append(status);
    message
}

/// Whether a status is in the 200s.
pub fn status_is_success(status: u16) -> (ok: bool)
    ensures
        ok == (200 <= status < 300),
{
    200 <= status && status < 300
}

/// A response counts as a success when its status is in the 200s and its
/// `success` header says `true`.
pub open spec fn is_success(status: u16, success_header: Option<Seq<char>>) -> bool {
    200 <= status < 300 && success_header == Some("true"@)
}

/// Judges a response by its status and its `success` header; `None` stands for
/// a header that is missing or is no text.
pub fn response_is_success(status: u16, success_header: Option<&str>) -> (ok: bool)
    ensures
        ok == is_success(
            status,
            match success_header {
                Some(h) => Some(h@),
                None => None,
            },
        ),
{
    match success_header {
        Some(h) => same_text(h, "true") && 200 <= status && status < 300,
        None => false,
    }
}

/// Seconds after which a request to the service is given up.
pub const REQUEST_TIMEOUT_SECS: u64 = 300;

/// How often a failed request is sent again.
pub const MAX_RETRIES: u32 = 3;

/// Seconds to wait before a request is sent again.
pub const RETRY_DELAY_SECS: u64 = 2;

/// Why an attempt gave no result.
pub enum Failure {
    /// The service answered, but not with a success.
    Rejected { status: String, body: String },
    /// The service could not be reached.
    Unreachable { error: String },
}

/// What follows a failed attempt.
pub enum Verdict {
    /// Wait, then send the request again.
    Retry { delay_secs: u64 },
    /// The retries are used up: the file has failed, with this message.
    GiveUp { message: String },
}

/// The message of the failure that ends the retries.
pub open spec fn failure_text(failure: Failure) -> Seq<char> {
    match failure {
        Failure::Rejected { status, body } => "API Error ("@ + status@ + "): "@ + body@,
        Failure::Unreachable { error } => "Network error after "@ + decimal_text(
            MAX_RETRIES as nat,
        ) + " retries: "@ + error@,
    }
}

/// Counts the retries of one request.
pub struct RetryState {
    retries: u32,
}

impl RetryState {
    /// How many times the request has been sent again.
    pub closed spec fn retries(&self) -> nat {
        self.retries as nat
    }

    /// How many times the request has been sent.
    pub open spec fn attempts(&self) -> nat {
        self.retries() + 1
    }

    /// No request is sent again more than `MAX_RETRIES` times.
    pub closed spec fn well_formed(&self) -> bool {
        self.retries <= MAX_RETRIES
    }

    /// The state at the first attempt.
    pub fn new() -> (state: Self)
        ensures
            state.well_formed(),
            state.retries() == 0,
    {
        RetryState { retries: 0 }
    }

    /// Decides what follows a failed attempt: another one after a pause, as
    /// long as fewer than `MAX_RETRIES` retries were made, else the end.
    pub fn after_failure(&mut self, failure: Failure) -> (verdict: Verdict)
        requires
            old(self).well_formed(),
        ensures
            final(self).well_formed(),
            final(self).attempts() <= MAX_RETRIES + 1,
            old(self).retries() < MAX_RETRIES ==> verdict == (Verdict::Retry {
                delay_secs: RETRY_DELAY_SECS,
            }) && final(self).retries() == old(self).retries() + 1,
            old(self).retries() >= MAX_RETRIES ==> final(self).retries() == old(self).retries()
                && verdict is GiveUp && verdict->message@ == failure_text(failure),
    {
        if self.retries >= MAX_RETRIES {
            let mut message: String;
            match failure {
                Failure::Rejected { status, body } => {
                    message = "API Error (".to_owned();
                    message.append(status.as_str());
                    message.append("): ");
                    message.append(body.as_str());
                },
                Failure::Unreachable { error } => {
                    message = "Network error after ".to_owned();
                    push_decimal(&mut message, MAX_RETRIES as u64);
                    message.append(" retries: ");
                    message.append(error.as_str());
                },
            }
            Verdict::GiveUp { message }
        } else {
            self.retries = self.retries + 1;
            Verdict::Retry { delay_secs: RETRY_DELAY_SECS }
        }
    }
}

} // verus!
