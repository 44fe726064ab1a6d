use taxogen::casing::capitalize;
use taxogen::casing::write_camel_case;
use taxogen::casing::write_snake_case;

fn camel(s: &str) -> Vec<u8> {
    let mut out: Vec<u8> = Vec::new();
    write_camel_case(s, &mut out);
    out
}

fn snake(s: &str) -> Vec<u8> {
    let mut out: Vec<u8> = Vec::new();
    write_snake_case(s, &mut out);
    out
}

#[test]
fn capitalizes() {
    let input = "lowercase";
    let result = capitalize(input);
    let expected = "Lowercase".to_owned();
    assert_eq!(expected, result)
}

#[test]
fn capitalize_keeps_uppercase() {
    assert_eq!(capitalize("Already"), "Already".to_owned());
}

#[test]
fn capitalize_empty() {
    assert_eq!(capitalize(""), "".to_owned());
}

#[test]
fn capitalize_non_letter_first() {
    assert_eq!(capitalize("1abc"), "1abc".to_owned());
}

#[test]
fn camel_cases_single_word() {
    assert_eq!(camel("lowercase"), b"Lowercase".to_vec());
}

#[test]
fn camel_cases_two_words() {
    assert_eq!(camel("two words"), b"TwoWords".to_vec());
}

#[test]
fn camel_drops_punctuation() {
    assert_eq!(camel("a-b_c.d"), b"ABCD".to_vec());
    assert_eq!(camel(""), b"".to_vec());
}

#[test]
fn snake_cases_two_words() {
    assert_eq!(snake("Two Words"), b"two_words".to_vec());
}

#[test]
fn snake_keeps_every_separator() {
    assert_eq!(snake("a  b--c"), b"a__b__c".to_vec());
    assert_eq!(snake(""), b"".to_vec());
}

#[test]
fn casing_passes_non_ascii_through_as_utf8() {
    assert_eq!(snake("\u{e9}a"), "\u{e9}a".as_bytes().to_vec());
    assert_eq!(camel("\u{e9}a"), "\u{e9}a".as_bytes().to_vec());
    assert_eq!(snake("Tag \u{3b1}\u{4e2d}\u{1f600}"), "tag_\u{3b1}\u{4e2d}\u{1f600}".as_bytes().to_vec());
    assert_eq!(camel("tag \u{3b1}\u{4e2d}\u{1f600}"), "Tag\u{3b1}\u{4e2d}\u{1f600}".as_bytes().to_vec());
}

#[test]
fn casing_appends_to_existing_sink() {
    let mut out: Vec<u8> = b"x".to_vec();
    write_camel_case("tag name", &mut out);
    assert_eq!(out, b"xTagName".to_vec());
    let mut out2: Vec<u8> = b"y".to_vec();
    write_snake_case("Tag Name", &mut out2);
    assert_eq!(out2, b"ytag_name".to_vec());
}
