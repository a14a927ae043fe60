//! The pictures in a PDF file: which of its streams are pictures, and what the
//! files made of them are called.

use crate::text::{padded_decimal_text, push_padded_decimal};
use vstd::prelude::*;
use vstd::string::StringExecFns;
use vstd::string::StrSliceExecFns;
use vstd::string::StringSliceAdditionalSpecFns;

verus! {

/// The filter entry of a stream's dictionary.
pub enum StreamFilter {
    /// One name.
    Name(Vec<u8>),
    /// A list of objects; each is given by its name, or by `None` where it is no name.
    Array(Vec<Option<Vec<u8>>>),
    /// Something else.
    Other,
    /// There is no such entry.
    Missing,
}

/// What is read of a stream's dictionary.
pub struct StreamInfo {
    /// The subtype, where the dictionary has one and it is a name.
    pub subtype: Option<Vec<u8>>,
    pub filter: StreamFilter,
}

/// The bytes of a name.
pub open spec fn name_bytes(name: &str) -> Seq<u8> {
    name.spec_bytes()
}

/// Whether `bytes` spell `name`.
fn spells(bytes: &Vec<u8>, name: &str) -> (r: bool)
    ensures
        r == (bytes@ == name_bytes(name)),
{
    let wanted = name.as_bytes_vec();
    if bytes.len() != wanted.len() {
        return false;
    }
    let mut i: usize = 0;
    while i < bytes.len()
        invariant
            i <= bytes.len(),
            bytes.len() == wanted.len(),
            wanted@ == name_bytes(name),
            forall|j: int| 0 <= j < i ==> bytes@[j] == wanted@[j],
        decreases bytes.len() - i,
    {
        if bytes[i] != wanted[i] {
            assert(bytes@[i as int] != wanted@[i as int]);
            return false;
        }
        i += 1;
    }
    assert(bytes@ =~= wanted@);
    true
}

/// A stream is a picture when its subtype is the name `Image`.
pub open spec fn is_image(info: StreamInfo) -> bool {
    info.subtype matches Some(name) && name@ == name_bytes("Image")
}

/// Whether a stream is a picture.
pub fn is_image_dict(info: &StreamInfo) -> (image: bool)
    ensures
        image == is_image(*info),
{
    match &info.subtype {
        Some(name) => spells(name, "Image"),
        None => false,
    }
}

/// The extension that the name of a filter stands for, if it stands for one.
pub open spec fn filter_extension(name: Seq<u8>) -> Option<Seq<char>> {
    if name == name_bytes("DCTDecode") {
        Some("jpg"@)
    } else if name == name_bytes("JPXDecode") {
        Some("jp2"@)
    } else if name == name_bytes("FlateDecode") {
        Some("png"@)
    } else {
        None
    }
}

/// The extension that the first of the names stands for that stands for one.
pub open spec fn first_extension(names: Seq<Option<Vec<u8>>>) -> Option<Seq<char>>
    decreases names.len(),
{
    if names.len() == 0 {
        None
    } else {
        match names[0] {
            Some(name) => match filter_extension(name@) {
                Some(e) => Some(e),
                None => first_extension(names.drop_first()),
            },
            None => first_extension(names.drop_first()),
        }
    }
}

/// The extension of the file for a stream: that of its filter, or of the first
/// filter in its list that has one, else `bin`.
pub open spec fn extension_for(filter: StreamFilter) -> Seq<char> {
    match filter {
        StreamFilter::Name(name) => match filter_extension(name@) {
            Some(e) => e,
            None => "bin"@,
        },
        StreamFilter::Array(names) => match first_extension(names@) {
            Some(e) => e,
            None => "bin"@,
        },
        _ => "bin"@,
    }
}

/// The extension that the name of a filter stands for.
fn extension_of_filter(name: &Vec<u8>) -> (extension: Option<&'static str>)
    ensures
        extension is Some <==> filter_extension(name@) is Some,
        extension matches Some(e) ==> e@ == filter_extension(name@).unwrap(),
{
    if spells(name, "DCTDecode") {
        Some("jpg")
    } else if spells(name, "JPXDecode") {
        Some("jp2")
    } else if spells(name, "FlateDecode") {
        Some("png")
    } else {
        None
    }
}

/// The extension of the file for a stream.
pub fn get_extension(filter: &StreamFilter) -> (extension: &'static str)
    ensures
        extension@ == extension_for(*filter),
{
    match filter {
        StreamFilter::Name(name) => match extension_of_filter(name) {
            Some(e) => e,
            None => "bin",
        },
        StreamFilter::Array(names) => {
            let mut i: usize = 0;
            assert(names@.skip(0) =~= names@);
            while i < names.len()
                invariant
                    i <= names.len(),
                    *filter == StreamFilter::Array(*names),
                    first_extension(names@) == first_extension(names@.skip(i as int)),
                decreases names.len() - i,
            {
                assert(names@.skip(i as int).drop_first() =~= names@.skip(i + 1));
                assert(names@.skip(i as int)[0] == names@[i as int]);
                match &names[i] {
                    Some(name) => match extension_of_filter(name) {
                        Some(e) => {
                            return e;
                        },
                        None => {},
                    },
                    None => {},
                }
                i += 1;
            }
            "bin"
        },
        _ => "bin",
    }
}

/// The file that is made of a stream.
pub struct PageFile {
    /// The place of the stream among the streams of the file.
    pub stream: usize,
    /// The name of the file.
    pub name: String,
}

/// The name of the file for the picture number `number`, counted from one: the
/// number in four digits behind `page_`, and the extension of the stream.
pub open spec fn page_name(number: nat, filter: StreamFilter) -> Seq<char> {
    "page_"@ + padded_decimal_text(number, 4) + "."@ + extension_for(filter)
}

/// How many of the streams are pictures.
pub open spec fn images_in(streams: Seq<StreamInfo>) -> nat {
    streams.filter(|s: StreamInfo| is_image(s)).len()
}

/// The files for the pictures among the streams of a PDF file, in the order of
/// the streams, or the message that the file has no picture.
pub fn extract_images_from_pdf(streams: &Vec<StreamInfo>) -> (files: Result<Vec<PageFile>, String>)
    ensures
        files is Ok <==> images_in(streams@) > 0,
        files matches Err(message) ==> message@ == "No images found in PDF"@,
        files matches Ok(list) ==> list@.len() == images_in(streams@) && forall|k: int|
            0 <= k < list@.len() ==> {
                let file = #[trigger] list@[k];
                &&& file.stream < streams@.len()
                &&& is_image(streams@[file.stream as int])
                &&& file.name@ == page_name((k + 1) as nat, streams@[file.stream as int].filter)
                &&& images_in(streams@.take(file.stream as int)) == k
            },
{
    let ghost image = |s: StreamInfo| is_image(s);
    let mut files: Vec<PageFile> = Vec::new();
    let mut i: usize = 0;
    assert(streams@.take(0).filter(image).len() == 0) by {
        reveal_with_fuel(Seq::filter, 1);
    }
    while i < streams.len()
        invariant
            i <= streams.len(),
            image == |s: StreamInfo| is_image(s),
            files@.len() == streams@.take(i as int).filter(image).len(),
            files@.len() <= i,
            forall|k: int|
                0 <= k < files@.len() ==> {
                    let file = #[trigger] files@[k];
                    &&& file.stream < i
                    &&& is_image(streams@[file.stream as int])
                    &&& file.name@ == page_name(
                        (k + 1) as nat,
                        streams@[file.stream as int].filter,
                    )
                    &&& images_in(streams@.take(file.stream as int)) == k
                },
        decreases streams.len() - i,
    {
        proof {
            let next = streams@.take(i + 1);
            assert(next.drop_last() =~= streams@.take(i as int));
            assert(next.last() == streams@[i as int]);
            reveal_with_fuel(Seq::filter, 2);
        }
        if is_image_dict(&streams[i]) {
            let mut name = "page_".to_owned();
            push_padded_decimal(&mut name, (files.len() + 1) as u64, 4);
            name.append(".");
            name.append(get_extension(&streams[i].filter));
            files.push(PageFile { stream: i, name });
        }
        i += 1;
    }
    assert(streams@.take(streams@.len() as int) =~= streams@);
    if files.len() == 0 {
        Err("No images found in PDF".to_owned())
    } else {
        Ok(files)
    }
}

} // verus!
