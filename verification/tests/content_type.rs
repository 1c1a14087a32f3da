use memory_cleanr::clipboard::ContentType;

#[test]
fn content_type_tags_round_trip() {
    assert_eq!(ContentType::Text.as_str(), "text");
    assert_eq!(ContentType::File.as_str(), "file");
    assert_eq!(ContentType::parse_content_type("file"), ContentType::File);
    assert_eq!(ContentType::parse_content_type("text"), ContentType::Text);
    assert_eq!(ContentType::parse_content_type("image"), ContentType::Text);
    for t in [ContentType::Text, ContentType::File] {
        assert_eq!(ContentType::parse_content_type(t.as_str()), t);
    }
}
