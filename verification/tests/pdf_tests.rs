use tapi::pdf::{extract_images_from_pdf, get_extension, is_image_dict, StreamFilter, StreamInfo};

fn name(s: &str) -> Vec<u8> {
    s.as_bytes().to_vec()
}

fn stream(subtype: Option<&str>, filter: StreamFilter) -> StreamInfo {
    StreamInfo { subtype: subtype.map(name), filter }
}

#[test]
fn pictures_by_subtype() {
    assert!(is_image_dict(&stream(Some("Image"), StreamFilter::Missing)));
    assert!(!is_image_dict(&stream(Some("Form"), StreamFilter::Missing)));
    assert!(!is_image_dict(&stream(Some("image"), StreamFilter::Missing)));
    assert!(!is_image_dict(&stream(Some("Images"), StreamFilter::Missing)));
    assert!(!is_image_dict(&stream(None, StreamFilter::Missing)));
}

#[test]
fn extensions_by_filter() {
    assert_eq!(get_extension(&StreamFilter::Name(name("DCTDecode"))), "jpg");
    assert_eq!(get_extension(&StreamFilter::Name(name("JPXDecode"))), "jp2");
    assert_eq!(get_extension(&StreamFilter::Name(name("FlateDecode"))), "png");
    assert_eq!(get_extension(&StreamFilter::Name(name("LZWDecode"))), "bin");
    assert_eq!(get_extension(&StreamFilter::Other), "bin");
    assert_eq!(get_extension(&StreamFilter::Missing), "bin");
    assert_eq!(get_extension(&StreamFilter::Array(Vec::new())), "bin");
    assert_eq!(
        get_extension(&StreamFilter::Array(vec![None, Some(name("ASCII85Decode")), Some(name("FlateDecode")), Some(name("DCTDecode"))])),
        "png"
    );
    assert_eq!(get_extension(&StreamFilter::Array(vec![None, Some(name("X"))])), "bin");
}

#[test]
fn files_for_the_pictures_of_a_document() {
    let streams = vec![
        stream(None, StreamFilter::Name(name("FlateDecode"))),
        stream(Some("Image"), StreamFilter::Name(name("DCTDecode"))),
        stream(Some("Form"), StreamFilter::Missing),
        stream(Some("Image"), StreamFilter::Array(vec![Some(name("FlateDecode"))])),
        stream(Some("Image"), StreamFilter::Other),
    ];
    let files = extract_images_from_pdf(&streams).ok().unwrap();
    let got: Vec<(usize, &str)> = files.iter().map(|f| (f.stream, f.name.as_str())).collect();
    assert_eq!(got, vec![(1, "page_0001.jpg"), (3, "page_0002.png"), (4, "page_0003.bin")]);
    assert_eq!(
        extract_images_from_pdf(&vec![stream(None, StreamFilter::Missing)]).err(),
        Some("No images found in PDF".to_string())
    );
    assert!(extract_images_from_pdf(&Vec::new()).is_err());
}
