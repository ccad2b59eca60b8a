use spaceport::text_info::{image_payload, parse_text_info, text_info_from_reply, TextInfoError};

#[test]
fn reply_with_one_delimiter_splits_into_name_and_description() {
    let (name, description) = parse_text_info("Alpha%%%A shiny cargo").unwrap();
    assert_eq!(name, "Alpha");
    assert_eq!(description, "A shiny cargo");
}

#[test]
fn reply_without_delimiter_is_malformed() {
    assert_eq!(parse_text_info("no delimiter here"), Err(TextInfoError::Malformed));
}

#[test]
fn reply_with_two_delimiters_is_malformed() {
    assert_eq!(parse_text_info("a%%%b%%%c"), Err(TextInfoError::Malformed));
}

#[test]
fn delimiter_is_matched_from_the_left() {
    let (name, description) = parse_text_info("%%%%").unwrap();
    assert_eq!(name, "");
    assert_eq!(description, "%");
}

#[test]
fn non_ascii_reply_splits_on_characters() {
    let (name, description) = parse_text_info("星塵罐%%%一罐閃亮的星塵").unwrap();
    assert_eq!(name, "星塵罐");
    assert_eq!(description, "一罐閃亮的星塵");
}

#[test]
fn empty_reply_is_reported() {
    assert_eq!(text_info_from_reply(&vec![]), Err(TextInfoError::EmptyReply));
}

#[test]
fn first_block_of_reply_is_read() {
    let blocks = vec!["Alpha%%%A shiny cargo".to_string(), "ignored".to_string()];
    let (name, description) = text_info_from_reply(&blocks).unwrap();
    assert_eq!(name, "Alpha");
    assert_eq!(description, "A shiny cargo");
}

#[test]
fn image_payload_is_base64() {
    assert_eq!(image_payload(&b"abc".to_vec()), "YWJj");
    assert_eq!(image_payload(&b"ab".to_vec()), "YWI=");
    assert_eq!(image_payload(&vec![]), "");
}
