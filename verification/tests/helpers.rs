use std::path::PathBuf;
use swiss_knife::helpers::{
    content_type_for, detect_content_type, overlong_tags, parse_metadata, parse_tags,
};

#[test]
fn test_detect_content_type_video() {
    assert_eq!(detect_content_type(&PathBuf::from("video.mp4")), "video/mp4");
    assert_eq!(detect_content_type(&PathBuf::from("movie.mov")), "video/quicktime");
    assert_eq!(detect_content_type(&PathBuf::from("clip.avi")), "video/x-msvideo");
}

#[test]
fn test_detect_content_type_image() {
    assert_eq!(detect_content_type(&PathBuf::from("photo.jpg")), "image/jpeg");
    assert_eq!(detect_content_type(&PathBuf::from("image.png")), "image/png");
}

#[test]
fn test_detect_content_type_unknown() {
    assert_eq!(
        detect_content_type(&PathBuf::from("file.unknown")),
        "application/octet-stream"
    );
    assert_eq!(
        detect_content_type(&PathBuf::from("no_extension")),
        "application/octet-stream"
    );
}

#[test]
fn test_parse_metadata() {
    let metadata = parse_metadata("author=John Doe,project=Demo,version=1.0");

    assert_eq!(metadata.len(), 3);
    assert_eq!(metadata.get("author"), Some(&"John Doe".to_string()));
    assert_eq!(metadata.get("project"), Some(&"Demo".to_string()));
    assert_eq!(metadata.get("version"), Some(&"1.0".to_string()));
}

#[test]
fn test_parse_metadata_empty() {
    let metadata = parse_metadata("");
    assert_eq!(metadata.len(), 0);
}

#[test]
fn test_parse_metadata_malformed() {
    let metadata = parse_metadata("author=John,invalid,project=");

    // Should only parse valid key=value pairs
    assert_eq!(metadata.len(), 1);
    assert_eq!(metadata.get("author"), Some(&"John".to_string()));
}

#[test]
fn test_parse_tags() {
    let tags = parse_tags("env=prod,type=video");

    assert_eq!(tags.len(), 2);
    assert_eq!(tags.get("env"), Some(&"prod".to_string()));
    assert_eq!(tags.get("type"), Some(&"video".to_string()));
}

#[test]
fn test_parse_tags_length_validation() {
    // Tag key too long (> 128 chars)
    let long_key = format!("{}=value", "k".repeat(129));
    let tags = parse_tags(&long_key);
    assert_eq!(tags.len(), 0);

    // Tag value too long (> 256 chars)
    let long_value = format!("key={}", "v".repeat(257));
    let tags = parse_tags(&long_value);
    assert_eq!(tags.len(), 0);
}

#[test]
fn tags_at_the_limits_are_kept() {
    let key = "k".repeat(128);
    let value = "v".repeat(256);
    let tags = parse_tags(&format!("{}={}", key, value));
    assert_eq!(tags.len(), 1);
    assert_eq!(tags.get(&key), Some(&value));
    // the limits count bytes: 65 characters of two bytes are 130 bytes
    let wide = "\u{e9}".repeat(65);
    assert_eq!(parse_tags(&format!("{}=v", wide)).len(), 0);
    assert_eq!(parse_metadata(&format!("{}=v", wide)).len(), 1);
}

#[test]
fn content_types_by_extension() {
    assert_eq!(content_type_for(Some("jpeg")), "image/jpeg");
    assert_eq!(content_type_for(Some("htm")), "text/html");
    assert_eq!(content_type_for(Some("tiff")), "image/tiff");
    assert_eq!(content_type_for(Some("mp3")), "audio/mpeg");
    assert_eq!(content_type_for(Some("m4a")), "audio/mp4");
    assert_eq!(
        content_type_for(Some("docx")),
        "application/vnd.openxmlformats-officedocument.wordprocessingml.document"
    );
    assert_eq!(content_type_for(Some("7z")), "application/x-7z-compressed");
    assert_eq!(content_type_for(Some("iso")), "application/x-iso9660-image");
    assert_eq!(content_type_for(Some("MP4")), "application/octet-stream");
    assert_eq!(content_type_for(Some("")), "application/octet-stream");
    assert_eq!(content_type_for(None), "application/octet-stream");
}

#[test]
fn content_type_goes_by_the_last_extension_of_the_file_name() {
    assert_eq!(detect_content_type(&PathBuf::from("dir.mp4/archive.tar.gz")), "application/gzip");
    assert_eq!(detect_content_type(&PathBuf::from(".png")), "application/octet-stream");
    assert_eq!(detect_content_type(&PathBuf::from("a/b/c.json")), "application/json");
}

#[test]
fn metadata_takes_the_first_two_pieces_of_a_pair_trimmed() {
    let metadata = parse_metadata("  a = 1 = 2 , b=\t2\n,=3,c= ,d");
    assert_eq!(metadata.len(), 2);
    assert_eq!(metadata.get("a"), Some(&"1".to_string()));
    assert_eq!(metadata.get("b"), Some(&"2".to_string()));
    assert_eq!(metadata.get("c"), None);
    assert_eq!(metadata.get("d"), None);
}

#[test]
fn a_later_value_replaces_an_earlier_one() {
    let metadata = parse_metadata("k=1,j=2,k=3");
    assert_eq!(metadata.len(), 2);
    assert_eq!(metadata.get("k"), Some(&"3".to_string()));
    assert_eq!(metadata.get("j"), Some(&"2".to_string()));
    assert!(!metadata.is_empty());
    assert_eq!(metadata.entries().len(), 2);
}

#[test]
fn unicode_whitespace_is_trimmed() {
    let metadata = parse_metadata("\u{2003}k\u{a0}=\u{3000}v\u{85}");
    assert_eq!(metadata.get("k"), Some(&"v".to_string()));
}

#[test]
fn tags_that_are_too_long_are_reported() {
    let long_key = "k".repeat(129);
    let long_value = "v".repeat(257);
    let text = format!("a=1,{}=x,broken,b={},c=3", long_key, long_value);
    assert_eq!(
        overlong_tags(&text),
        vec![(long_key, "x".to_string()), ("b".to_string(), long_value)]
    );
    assert_eq!(parse_tags(&text).len(), 2);
    assert!(overlong_tags("a=1,b=2").is_empty());
}
